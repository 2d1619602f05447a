use line_shell::builtin::BuiltInCommand;
use line_shell::command::Command;
use line_shell::error::ErrorKind;
use line_shell::external::ExternalCommand;
use std::str::FromStr;

fn texts(words: &[&str]) -> Vec<String> {
    words.iter().map(|word| word.to_string()).collect()
}

fn external(program: &str, arguments: &[&str]) -> Command {
    Command::External(ExternalCommand {
        program: program.to_string(),
        arguments: texts(arguments),
    })
}

#[test]
fn list_takes_no_operand() {
    assert_eq!(Command::from_str("ls"), Ok(Command::BuiltIn(BuiltInCommand::List)));
}

#[test]
fn list_ignores_extra_tokens() {
    assert_eq!(
        Command::from_str("ls extra tokens"),
        Ok(Command::BuiltIn(BuiltInCommand::List))
    );
}

#[test]
fn remove_takes_its_target() {
    assert_eq!(
        Command::from_str("rm file.txt"),
        Ok(Command::BuiltIn(BuiltInCommand::Remove { target: "file.txt".to_string() }))
    );
}

#[test]
fn empty_line_is_invalid() {
    assert_eq!(Command::from_str(""), Err(ErrorKind::InvalidCommand));
}

#[test]
fn unknown_name_is_external() {
    assert_eq!(
        Command::from_str("randomprog --flag value"),
        Ok(external("randomprog", &["--flag", "value"]))
    );
}

#[test]
fn copy_without_destination_falls_back_to_external() {
    assert_eq!(Command::from_str("cp onlyone"), Ok(external("cp", &["onlyone"])));
}

#[test]
fn built_in_names_without_operands_fall_back_to_external() {
    assert_eq!(Command::from_str("cp"), Ok(external("cp", &[])));
    assert_eq!(Command::from_str("mv"), Ok(external("mv", &[])));
    assert_eq!(Command::from_str("mv a"), Ok(external("mv", &["a"])));
    assert_eq!(Command::from_str("rm"), Ok(external("rm", &[])));
}

#[test]
fn copy_and_move_take_operands_in_order() {
    assert_eq!(
        Command::from_str("cp a.txt b.txt"),
        Ok(Command::BuiltIn(BuiltInCommand::Copy {
            source: "a.txt".to_string(),
            destination: "b.txt".to_string(),
        }))
    );
    assert_eq!(
        Command::from_str("mv old new"),
        Ok(Command::BuiltIn(BuiltInCommand::Move {
            source: "old".to_string(),
            destination: "new".to_string(),
        }))
    );
}

#[test]
fn operands_in_order_for_many_pairs() {
    let words = ["a", "b.txt", "dir/file", "--x", "cp", "ls", "é", "文件"];
    for source in words {
        for destination in words {
            assert_eq!(
                Command::from_str(&format!("cp {} {}", source, destination)),
                Ok(Command::BuiltIn(BuiltInCommand::Copy {
                    source: source.to_string(),
                    destination: destination.to_string(),
                }))
            );
            assert_eq!(
                Command::from_str(&format!("mv {} {}", source, destination)),
                Ok(Command::BuiltIn(BuiltInCommand::Move {
                    source: source.to_string(),
                    destination: destination.to_string(),
                }))
            );
        }
    }
}

#[test]
fn tokens_beyond_the_operands_do_not_count() {
    assert_eq!(
        Command::from_str("cp a b c d"),
        Ok(Command::BuiltIn(BuiltInCommand::Copy {
            source: "a".to_string(),
            destination: "b".to_string(),
        }))
    );
    assert_eq!(
        Command::from_str("rm a b"),
        Ok(Command::BuiltIn(BuiltInCommand::Remove { target: "a".to_string() }))
    );
}

#[test]
fn empty_tokens_count_as_operands() {
    assert_eq!(
        Command::from_str("cp  b"),
        Ok(Command::BuiltIn(BuiltInCommand::Copy {
            source: "".to_string(),
            destination: "b".to_string(),
        }))
    );
    assert_eq!(
        Command::from_str("rm "),
        Ok(Command::BuiltIn(BuiltInCommand::Remove { target: "".to_string() }))
    );
}

#[test]
fn a_name_is_matched_whole_and_exactly() {
    assert_eq!(Command::from_str("lsx"), Ok(external("lsx", &[])));
    assert_eq!(Command::from_str("l"), Ok(external("l", &[])));
    assert_eq!(Command::from_str("LS"), Ok(external("LS", &[])));
    assert_eq!(Command::from_str("cpp a b"), Ok(external("cpp", &["a", "b"])));
    assert_eq!(Command::from_str("rmm x"), Ok(external("rmm", &["x"])));
}

#[test]
fn a_leading_space_makes_the_program_empty() {
    assert_eq!(Command::from_str(" ls"), Ok(external("", &["ls"])));
    assert_eq!(Command::from_str(" "), Ok(external("", &[""])));
}

#[test]
fn only_the_space_separates() {
    assert_eq!(Command::from_str("ls\t-l"), Ok(external("ls\t-l", &[])));
    assert_eq!(Command::from_str("a\u{a0}b"), Ok(external("a\u{a0}b", &[])));
}

#[test]
fn resolving_twice_gives_equal_commands() {
    let lines = ["ls", "cp a b", "cp onlyone", "", "quux 1 2", "rm x", " ", "mv  y"];
    for line in lines {
        assert_eq!(Command::from_str(line), Command::from_str(line));
    }
}

#[test]
fn parse_resolves_too() {
    assert_eq!("ls".parse::<Command>(), Ok(Command::BuiltIn(BuiltInCommand::List)));
    assert_eq!("".parse::<Command>(), Err(ErrorKind::InvalidCommand));
}

#[test]
fn from_tokens_resolves_a_token_sequence() {
    assert_eq!(Command::from_tokens(&texts(&[])), Err(ErrorKind::InvalidCommand));
    assert_eq!(
        Command::from_tokens(&texts(&["ls"])),
        Ok(Command::BuiltIn(BuiltInCommand::List))
    );
    assert_eq!(Command::from_tokens(&texts(&["x", "y z"])), Ok(external("x", &["y z"])));
}

#[test]
fn built_in_classifier_accepts_well_formed_invocations_only() {
    assert_eq!(BuiltInCommand::from_str("ls"), Ok(BuiltInCommand::List));
    assert_eq!(
        BuiltInCommand::from_str("cp a b"),
        Ok(BuiltInCommand::Copy { source: "a".to_string(), destination: "b".to_string() })
    );
    assert_eq!(
        BuiltInCommand::from_str("mv a b"),
        Ok(BuiltInCommand::Move { source: "a".to_string(), destination: "b".to_string() })
    );
    assert_eq!(
        BuiltInCommand::from_str("rm a"),
        Ok(BuiltInCommand::Remove { target: "a".to_string() })
    );
    assert_eq!(BuiltInCommand::from_str(""), Err(ErrorKind::InvalidBuiltIn));
    assert_eq!(BuiltInCommand::from_str("quux"), Err(ErrorKind::InvalidBuiltIn));
    assert_eq!(BuiltInCommand::from_str("cp onlyone"), Err(ErrorKind::InvalidBuiltIn));
    assert_eq!(BuiltInCommand::from_str("mv"), Err(ErrorKind::InvalidBuiltIn));
    assert_eq!(BuiltInCommand::from_str("rm"), Err(ErrorKind::InvalidBuiltIn));
    assert_eq!(BuiltInCommand::from_tokens(&texts(&[])), Err(ErrorKind::InvalidBuiltIn));
    assert_eq!(BuiltInCommand::from_tokens(&texts(&["ls", "x"])), Ok(BuiltInCommand::List));
}

#[test]
fn external_classifier_fails_on_no_token_only() {
    assert_eq!(ExternalCommand::from_str(""), Err(ErrorKind::InvalidExternal));
    assert_eq!(ExternalCommand::from_tokens(&texts(&[])), Err(ErrorKind::InvalidExternal));
    assert_eq!(
        ExternalCommand::from_str("ls"),
        Ok(ExternalCommand { program: "ls".to_string(), arguments: vec![] })
    );
    assert_eq!(
        ExternalCommand::from_str("a b  c"),
        Ok(ExternalCommand { program: "a".to_string(), arguments: texts(&["b", "", "c"]) })
    );
    assert_eq!(
        ExternalCommand::from_tokens(&texts(&["", "x"])),
        Ok(ExternalCommand { program: "".to_string(), arguments: texts(&["x"]) })
    );
}

#[test]
fn clones_are_equal() {
    let commands = [
        Command::from_str("ls").unwrap(),
        Command::from_str("cp a b").unwrap(),
        Command::from_str("mv a b").unwrap(),
        Command::from_str("rm a").unwrap(),
        Command::from_str("quux 1 2 3").unwrap(),
    ];
    for command in &commands {
        assert_eq!(&command.clone(), command);
    }
}
