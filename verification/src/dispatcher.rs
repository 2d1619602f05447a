//! The read, classify, execute, report cycle as a state machine.
//!
//! The machine does no input or output itself. Whoever drives it reads one
//! line whenever the machine is `Reading`, hands over what the read gave,
//! lets the machine advance until it is `Reading` again or `Terminated`, and
//! emits each output on the way, in order. No failure ends the cycle: only
//! the end of the input does.

use crate::command::{
    command_report, lemma_only_the_empty_line_fails, resolve, Command, CommandView,
};
use crate::error::{error_report, ErrorKind};
use crate::text::{is_blank, lemma_blank_trims_to_nothing, trim, trimmed};
use std::str::FromStr;
use vstd::prelude::*;

verus! {

/// What one read of the input gave.
#[derive(Debug, PartialEq, Eq)]
pub enum ReadEvent {
    /// A line, with or without its line terminator.
    Line(String),
    /// The input has ended.
    EndOfInput,
    /// The bytes that were read are not valid text.
    DecodingFailure,
}

/// A read event as plain values.
pub enum ReadEventView {
    Line(Seq<char>),
    EndOfInput,
    DecodingFailure,
}

impl View for ReadEvent {
    type V = ReadEventView;

    open spec fn view(&self) -> ReadEventView {
        match *self {
            ReadEvent::Line(line) => ReadEventView::Line(line@),
            ReadEvent::EndOfInput => ReadEventView::EndOfInput,
            ReadEvent::DecodingFailure => ReadEventView::DecodingFailure,
        }
    }
}

impl DeepView for ReadEvent {
    type V = ReadEventView;

    open spec fn deep_view(&self) -> ReadEventView {
        self@
    }
}

/// Where the cycle stands.
#[derive(Debug, PartialEq, Eq)]
pub enum State {
    /// Waiting for the next read of the input.
    Reading,
    /// A line has been read and is to be classified.
    Classifying(String),
    /// The line resolved to this command, whose handler is to run.
    Executing(Command),
    /// The handler has run.
    Reporting,
    /// The input has ended; nothing more happens.
    Terminated,
}

/// A state as plain values.
pub enum StateView {
    Reading,
    Classifying(Seq<char>),
    Executing(CommandView),
    Reporting,
    Terminated,
}

impl View for State {
    type V = StateView;

    open spec fn view(&self) -> StateView {
        match *self {
            State::Reading => StateView::Reading,
            State::Classifying(line) => StateView::Classifying(line@),
            State::Executing(command) => StateView::Executing(command@),
            State::Reporting => StateView::Reporting,
            State::Terminated => StateView::Terminated,
        }
    }
}

/// One move of the machine: the state it enters and the line to emit on the
/// way, if there is one.
#[derive(Debug, PartialEq, Eq)]
pub struct Transition {
    pub next: State,
    pub output: Option<String>,
}

/// A transition as plain values.
pub struct TransitionView {
    pub next: StateView,
    pub output: Option<Seq<char>>,
}

impl View for Transition {
    type V = TransitionView;

    open spec fn view(&self) -> TransitionView {
        TransitionView {
            next: self.next@,
            output: match self.output {
                Some(text) => Some(text@),
                None => None,
            },
        }
    }
}

/// The move out of `Reading` on what a read gave: a line is to be
/// classified, the end of the input terminates, and a decoding failure is
/// reported while the machine keeps reading.
pub open spec fn after_read(event: ReadEventView) -> TransitionView {
    match event {
        ReadEventView::Line(line) => TransitionView {
            next: StateView::Classifying(line),
            output: None,
        },
        ReadEventView::EndOfInput => TransitionView { next: StateView::Terminated, output: None },
        ReadEventView::DecodingFailure => TransitionView {
            next: StateView::Reading,
            output: Some(error_report(ErrorKind::DecodingFailure)),
        },
    }
}

/// The move that a state makes by itself. Classifying trims the line and
/// resolves it: a command goes on to be executed, a failure is reported and
/// the machine reads again without running any handler. Executing runs the
/// handler, whose report is the output. `Reading` waits and `Terminated`
/// stays.
pub open spec fn after_advance(state: StateView) -> TransitionView {
    match state {
        StateView::Reading => TransitionView { next: StateView::Reading, output: None },
        StateView::Classifying(line) => match resolve(trimmed(line)) {
            Some(command) => TransitionView { next: StateView::Executing(command), output: None },
            None => TransitionView {
                next: StateView::Reading,
                output: Some(error_report(ErrorKind::InvalidCommand)),
            },
        },
        StateView::Executing(command) => TransitionView {
            next: StateView::Reporting,
            output: Some(command_report(command)),
        },
        StateView::Reporting => TransitionView { next: StateView::Reading, output: None },
        StateView::Terminated => TransitionView { next: StateView::Terminated, output: None },
    }
}

/// How many moves a state is away from `Reading` or `Terminated`, at most.
pub open spec fn moves_left(state: StateView) -> nat {
    match state {
        StateView::Classifying(_) => 3,
        StateView::Executing(_) => 2,
        StateView::Reporting => 1,
        _ => 0,
    }
}

/// The outputs of a transition and of the moves that follow it, up to the
/// next `Reading` or `Terminated`.
pub open spec fn outputs_from(transition: TransitionView) -> Seq<Seq<char>>
    decreases moves_left(transition.next),
{
    let first = match transition.output {
        Some(text) => seq![text],
        None => Seq::empty(),
    };
    if moves_left(transition.next) == 0 {
        first
    } else {
        first + outputs_from(after_advance(transition.next))
    }
}

/// The state in which the machine comes to rest after a transition and the
/// moves that follow it.
pub open spec fn rest_after(transition: TransitionView) -> StateView
    decreases moves_left(transition.next),
{
    if moves_left(transition.next) == 0 {
        transition.next
    } else {
        rest_after(after_advance(transition.next))
    }
}

/// The one line that a read event other than the end of the input makes the
/// machine emit: the report of the handler of the command that the trimmed
/// line resolves to, or the report of the failure.
pub open spec fn report_for(event: ReadEventView) -> Seq<char> {
    match event {
        ReadEventView::Line(line) => match resolve(trimmed(line)) {
            Some(command) => command_report(command),
            None => error_report(ErrorKind::InvalidCommand),
        },
        _ => error_report(ErrorKind::DecodingFailure),
    }
}

/// The lines that the machine emits when it is fed the events in order: one
/// for each event before the first end of the input, none from there on.
pub open spec fn reports_of(events: Seq<ReadEventView>) -> Seq<Seq<char>>
    decreases events.len(),
{
    if events.len() == 0 || events[0] is EndOfInput {
        Seq::empty()
    } else {
        seq![report_for(events[0])] + reports_of(events.drop_first())
    }
}

/// Whatever is read, the moves that follow emit exactly one line and bring
/// the machine back to `Reading`; only the end of the input emits none and
/// leaves the machine `Terminated`.
pub proof fn lemma_one_report_per_read(event: ReadEventView)
    ensures
        outputs_from(after_read(event)) == if event is EndOfInput {
            Seq::<Seq<char>>::empty()
        } else {
            seq![report_for(event)]
        },
        rest_after(after_read(event)) == if event is EndOfInput {
            StateView::Terminated
        } else {
            StateView::Reading
        },
{
    reveal_with_fuel(outputs_from, 4);
    reveal_with_fuel(rest_after, 4);
    match event {
        ReadEventView::Line(line) => {
            let classified = after_advance(StateView::Classifying(line));
            match resolve(trimmed(line)) {
                Some(command) => {
                    let executed = after_advance(StateView::Executing(command));
                    let reported = after_advance(StateView::Reporting);
                    assert(outputs_from(reported) =~= Seq::<Seq<char>>::empty());
                    assert(outputs_from(executed) =~= seq![command_report(command)]);
                    assert(outputs_from(classified) =~= seq![command_report(command)]);
                    assert(outputs_from(after_read(event)) =~= seq![report_for(event)]);
                },
                None => {
                    assert(outputs_from(classified) =~= seq![report_for(event)]);
                    assert(outputs_from(after_read(event)) =~= seq![report_for(event)]);
                },
            }
        },
        ReadEventView::EndOfInput => {},
        ReadEventView::DecodingFailure => {},
    }
}

/// Only the end of the input terminates the machine: no line, however
/// malformed, and no decoding failure does.
pub proof fn lemma_only_end_of_input_terminates(event: ReadEventView, state: StateView)
    ensures
        after_read(event).next is Terminated <==> event is EndOfInput,
        after_advance(state).next is Terminated <==> state is Terminated,
{
}

/// A line is reported as an invalid command, and no handler runs for it,
/// exactly if it is blank; every other line goes on to be executed.
pub proof fn lemma_only_blank_lines_are_invalid(line: Seq<char>)
    ensures
        is_blank(line) ==> after_advance(StateView::Classifying(line)) == (TransitionView {
            next: StateView::Reading,
            output: Some(error_report(ErrorKind::InvalidCommand)),
        }),
        !is_blank(line) ==> after_advance(StateView::Classifying(line)).next is Executing,
{
    lemma_blank_trims_to_nothing(line);
    lemma_only_the_empty_line_fails(trimmed(line));
}

impl State {
    /// The move out of `Reading` on what a read gave.
    pub fn on_read(event: ReadEvent) -> (transition: Transition)
        ensures
            transition@ == after_read(event@),
    {
        match event {
            ReadEvent::Line(line) => Transition { next: State::Classifying(line), output: None },
            ReadEvent::EndOfInput => Transition { next: State::Terminated, output: None },
            ReadEvent::DecodingFailure => Transition {
                next: State::Reading,
                output: Some(ErrorKind::DecodingFailure.report()),
            },
        }
    }

    /// The move that this state makes by itself.
    pub fn advance(self) -> (transition: Transition)
        ensures
            transition@ == after_advance(self@),
    {
        match self {
            State::Reading => Transition { next: State::Reading, output: None },
            State::Classifying(line) => match Command::from_str(trim(line.as_str())) {
                Ok(command) => Transition { next: State::Executing(command), output: None },
                Err(kind) => Transition { next: State::Reading, output: Some(kind.report()) },
            },
            State::Executing(command) => Transition {
                next: State::Reporting,
                output: Some(command.exec()),
            },
            State::Reporting => Transition { next: State::Reading, output: None },
            State::Terminated => Transition { next: State::Terminated, output: None },
        }
    }

    /// Whether the machine rests in this state: it waits for a read, or it
    /// has terminated.
    pub fn is_at_rest(&self) -> (resting: bool)
        ensures
            resting == (moves_left(self@) == 0),
    {
        match self {
            State::Reading => true,
            State::Terminated => true,
            _ => false,
        }
    }
}

/// Drives the machine from `Reading` through the events in order and
/// collects what it emits, up to the first end of the input.
pub fn run(events: Vec<ReadEvent>) -> (reports: Vec<String>)
    ensures
        reports.deep_view() == reports_of(events.deep_view()),
{
    let ghost all = events.deep_view();
    let ghost script = events@;
    let mut reports: Vec<String> = Vec::new();
    assert(all.skip(0) =~= all);
    assert(reports.deep_view() =~= Seq::<Seq<char>>::empty());
    for read in it: events
        invariant
            it.seq() == script,
            all == events.deep_view(),
            all.len() == script.len(),
            forall|k: int| 0 <= k < script.len() ==> all[k] == (#[trigger] script[k])@,
            reports.deep_view() + reports_of(all.skip(it.index())) == reports_of(all),
    {
        let ghost before = reports.deep_view();
        let ghost i = it.index();
        let ghost event = all[i];
        proof {
            lemma_one_report_per_read(event);
            assert(all.skip(i)[0] == event);
            assert(all.skip(i).drop_first() =~= all.skip(i + 1));
            assert(read@ == event);
        }
        let mut transition = State::on_read(read);
        loop
            invariant_except_break
                reports.deep_view() + outputs_from(transition@) == before + outputs_from(
                    after_read(event),
                ),
            invariant
                rest_after(transition@) == rest_after(after_read(event)),
            ensures
                transition.next@ == rest_after(after_read(event)),
                reports.deep_view() == before + outputs_from(after_read(event)),
            decreases moves_left(transition.next@) + 1,
        {
            let ghost emitted = reports.deep_view();
            let Transition { next, output } = transition;
            if let Some(text) = output {
                reports.push(text);
                assert(reports.deep_view() =~= emitted.push(text@));
            }
            if next.is_at_rest() {
                transition = Transition { next, output: None };
                assert(reports.deep_view() =~= before + outputs_from(after_read(event)));
                break;
            }
            transition = next.advance();
            assert(reports.deep_view() + outputs_from(transition@) =~= before + outputs_from(
                after_read(event),
            ));
        }
        if let State::Terminated = transition.next {
            assert(reports_of(all.skip(i)) =~= Seq::<Seq<char>>::empty());
            assert(reports.deep_view() =~= reports_of(all));
            return reports;
        }
        assert(reports.deep_view() + reports_of(all.skip(i + 1)) =~= reports_of(all));
    }
    assert(reports_of(all.skip(all.len() as int)) =~= Seq::<Seq<char>>::empty());
    assert(reports.deep_view() =~= reports_of(all));
    reports
}

} // verus!
