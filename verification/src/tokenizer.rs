//! Splitting a line into tokens at each single space.
//!
//! Only the space character separates: two spaces in a row enclose an empty
//! token, and a space at either end of the line leaves an empty token there.
//! The empty line has no token at all.

use vstd::prelude::*;

verus! {

/// The pieces of `s` between its spaces, in order. There is always one piece
/// more than there are spaces.
pub open spec fn split_on_space(s: Seq<char>) -> Seq<Seq<char>>
    decreases s.len(),
{
    if s.len() == 0 {
        seq![Seq::empty()]
    } else if s.last() == ' ' {
        split_on_space(s.drop_last()).push(Seq::empty())
    } else {
        let before = split_on_space(s.drop_last());
        before.drop_last().push(before.last().push(s.last()))
    }
}

/// The token sequence of a line: none for the empty line, else its pieces.
pub open spec fn tokens_of(line: Seq<char>) -> Seq<Seq<char>> {
    if line.len() == 0 {
        Seq::empty()
    } else {
        split_on_space(line)
    }
}

/// Whether `t` is free of spaces.
pub open spec fn has_no_space(t: Seq<char>) -> bool {
    forall|j: int| 0 <= j < t.len() ==> t[j] != ' '
}

/// The tokens written one after the other with one space between neighbours.
pub open spec fn joined(tokens: Seq<Seq<char>>) -> Seq<char>
    decreases tokens.len(),
{
    if tokens.len() == 0 {
        Seq::empty()
    } else if tokens.len() == 1 {
        tokens[0]
    } else {
        joined(tokens.drop_last()).push(' ') + tokens.last()
    }
}

/// Splitting yields at least one piece, and no piece holds a space.
pub proof fn lemma_pieces_hold_no_space(s: Seq<char>)
    ensures
        split_on_space(s).len() >= 1,
        forall|i: int| 0 <= i < split_on_space(s).len() ==> has_no_space(#[trigger] split_on_space(s)[i]),
    decreases s.len(),
{
    if s.len() > 0 {
        lemma_pieces_hold_no_space(s.drop_last());
    }
}

/// No token of a line holds a space.
pub proof fn lemma_tokens_hold_no_space(line: Seq<char>)
    ensures
        forall|i: int| 0 <= i < tokens_of(line).len() ==> has_no_space(#[trigger] tokens_of(line)[i]),
{
    lemma_pieces_hold_no_space(line);
}

/// Joining the pieces of `s` with single spaces gives `s` back.
pub proof fn lemma_joined_pieces(s: Seq<char>)
    ensures
        joined(split_on_space(s)) == s,
    decreases s.len(),
{
    if s.len() == 0 {
        assert(joined(split_on_space(s)) =~= s);
    } else {
        let head = s.drop_last();
        let before = split_on_space(head);
        lemma_joined_pieces(head);
        lemma_pieces_hold_no_space(head);
        if s.last() == ' ' {
            let pieces = before.push(Seq::empty());
            assert(pieces.drop_last() =~= before);
            assert(joined(pieces) =~= s);
        } else {
            let pieces = before.drop_last().push(before.last().push(s.last()));
            assert(pieces.drop_last() =~= before.drop_last());
            if before.len() == 1 {
                assert(joined(pieces) =~= s);
            } else {
                assert(joined(pieces) =~= joined(before).push(s.last()));
                assert(joined(pieces) =~= s);
            }
        }
    }
}

/// Joining the tokens of a line with single spaces gives the line back.
pub proof fn lemma_joined_tokens(line: Seq<char>)
    ensures
        joined(tokens_of(line)) == line,
{
    if line.len() == 0 {
        assert(joined(tokens_of(line)) =~= line);
    } else {
        lemma_joined_pieces(line);
    }
}

/// A text without a space is its own single piece.
pub proof fn lemma_single_piece(t: Seq<char>)
    requires
        has_no_space(t),
    ensures
        split_on_space(t) == seq![t],
    decreases t.len(),
{
    if t.len() == 0 {
        assert(t =~= Seq::<char>::empty());
    } else {
        let shorter = t.drop_last();
        lemma_single_piece(shorter);
        assert(t[t.len() - 1] != ' ');
        assert(shorter.push(t.last()) =~= t);
        let before = seq![shorter];
        assert(before.drop_last().push(before.last().push(t.last())) =~= seq![t]);
    }
}

/// A space and a text without one, written after `s`, add that text as one
/// more piece.
pub proof fn lemma_appended_piece(s: Seq<char>, t: Seq<char>)
    requires
        has_no_space(t),
    ensures
        split_on_space(s.push(' ') + t) == split_on_space(s).push(t),
    decreases t.len(),
{
    let whole = s.push(' ') + t;
    if t.len() == 0 {
        assert(t =~= Seq::<char>::empty());
        assert(whole.drop_last() =~= s);
    } else {
        let shorter = t.drop_last();
        lemma_appended_piece(s, shorter);
        assert(t[t.len() - 1] != ' ');
        assert(whole.last() == t.last());
        assert(whole.drop_last() =~= s.push(' ') + shorter);
        assert(shorter.push(t.last()) =~= t);
        let before = split_on_space(s).push(shorter);
        assert(before.drop_last() =~= split_on_space(s));
        assert(before.drop_last().push(before.last().push(t.last())) =~= split_on_space(s).push(t));
    }
}

/// Tokens without spaces, joined by single spaces, are split into themselves
/// again. The one exception is the single empty token: it joins to the empty
/// line, which has no token.
pub proof fn lemma_tokens_of_joined(tokens: Seq<Seq<char>>)
    requires
        tokens.len() >= 1,
        forall|i: int| 0 <= i < tokens.len() ==> has_no_space(#[trigger] tokens[i]),
        tokens != seq![Seq::<char>::empty()],
    ensures
        tokens_of(joined(tokens)) == tokens,
{
    lemma_pieces_of_joined(tokens);
    if tokens.len() == 1 {
        assert(seq![tokens[0]] =~= tokens);
        if tokens[0].len() == 0 {
            assert(tokens[0] =~= Seq::<char>::empty());
        }
    }
}

/// Tokens without spaces, joined by single spaces, are the pieces of what
/// they join to.
pub proof fn lemma_pieces_of_joined(tokens: Seq<Seq<char>>)
    requires
        tokens.len() >= 1,
        forall|i: int| 0 <= i < tokens.len() ==> has_no_space(#[trigger] tokens[i]),
    ensures
        split_on_space(joined(tokens)) == tokens,
    decreases tokens.len(),
{
    if tokens.len() == 1 {
        lemma_single_piece(tokens[0]);
        assert(seq![tokens[0]] =~= tokens);
    } else {
        let front = tokens.drop_last();
        lemma_pieces_of_joined(front);
        lemma_appended_piece(joined(front), tokens.last());
        assert(front.push(tokens.last()) =~= tokens);
    }
}

/// Splits the line at each space. The empty line gives no token.
pub fn tokenize(line: &str) -> (tokens: Vec<String>)
    ensures
        tokens.deep_view() == tokens_of(line@),
{
    let mut tokens: Vec<String> = Vec::new();
    if line.is_empty() {
        assert(tokens.deep_view() =~= tokens_of(line@));
        return tokens;
    }
    let mut current = String::new();
    let chars = line.chars();
    assert(tokens.deep_view().push(current@) =~= split_on_space(line@.take(0)));
    for c in it: chars
        invariant
            it.seq() == line@,
            tokens.deep_view().push(current@) == split_on_space(line@.take(it.index())),
    {
        let ghost done = tokens.deep_view();
        let ghost word = current@;
        let ghost seen = line@.take(it.index());
        proof {
            let now = line@.take(it.index() + 1);
            assert(now.drop_last() =~= seen);
            assert(now.last() == c);
            assert(done.push(word).drop_last() =~= done);
        }
        if c == ' ' {
            tokens.push(current);
            current = String::new();
            assert(tokens.deep_view() =~= done.push(word));
        } else {
            current.push(c);
            assert(tokens.deep_view() =~= done);
        }
    }
    let ghost done = tokens.deep_view();
    tokens.push(current);
    proof {
        assert(line@.take(line@.len() as int) =~= line@);
        assert(tokens.deep_view() =~= done.push(current@));
    }
    tokens
}

} // verus!
