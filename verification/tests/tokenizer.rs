use line_shell::tokenizer::tokenize;

fn texts(words: &[&str]) -> Vec<String> {
    words.iter().map(|word| word.to_string()).collect()
}

#[test]
fn empty_line_has_no_token() {
    assert_eq!(tokenize(""), texts(&[]));
}

#[test]
fn a_word_is_one_token() {
    assert_eq!(tokenize("ls"), texts(&["ls"]));
}

#[test]
fn tokens_come_in_order() {
    assert_eq!(tokenize("cp a.txt b.txt"), texts(&["cp", "a.txt", "b.txt"]));
}

#[test]
fn spaces_in_a_row_enclose_empty_tokens() {
    assert_eq!(tokenize("a  b"), texts(&["a", "", "b"]));
    assert_eq!(tokenize("a   b"), texts(&["a", "", "", "b"]));
}

#[test]
fn spaces_at_the_ends_leave_empty_tokens() {
    assert_eq!(tokenize(" a"), texts(&["", "a"]));
    assert_eq!(tokenize("a "), texts(&["a", ""]));
    assert_eq!(tokenize(" "), texts(&["", ""]));
    assert_eq!(tokenize("  "), texts(&["", "", ""]));
}

#[test]
fn other_white_space_does_not_separate() {
    assert_eq!(tokenize("a\tb"), texts(&["a\tb"]));
    assert_eq!(tokenize("a\nb c"), texts(&["a\nb", "c"]));
    assert_eq!(tokenize("a\u{3000}b"), texts(&["a\u{3000}b"]));
}

#[test]
fn characters_of_any_width_are_kept() {
    assert_eq!(tokenize("é 文件 𝄞x"), texts(&["é", "文件", "𝄞x"]));
}

#[test]
fn tokens_agree_with_splitting_a_non_empty_line() {
    let lines = ["a", "a b", " a  b ", "cp x y", "   ", "x\ty z", "one two  three   four"];
    for line in lines {
        let expected: Vec<String> = line.split(' ').map(|word| word.to_string()).collect();
        assert_eq!(tokenize(line), expected);
    }
}

#[test]
fn joining_the_tokens_gives_the_line_back() {
    let lines = ["", "a", "a b", " a  b ", "cp x y", "   ", "x\ty z"];
    for line in lines {
        let tokens = tokenize(line);
        assert_eq!(tokens.join(" "), line);
        for token in &tokens {
            assert!(!token.contains(' '));
        }
    }
}
