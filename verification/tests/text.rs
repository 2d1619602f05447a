use line_shell::text::{text_equals, trim};

#[test]
fn equal_texts_are_equal() {
    assert!(text_equals("", ""));
    assert!(text_equals("cp", "cp"));
    assert!(text_equals("文件 é", "文件 é"));
}

#[test]
fn different_texts_are_not_equal() {
    assert!(!text_equals("cp", "cpp"));
    assert!(!text_equals("cp", "c"));
    assert!(!text_equals("cp", "mv"));
    assert!(!text_equals("cp", "cP"));
    assert!(!text_equals("", " "));
    assert!(!text_equals("é", "e"));
}

#[test]
fn trim_removes_white_space_at_both_ends() {
    assert_eq!(trim("  ls \n"), "ls");
    assert_eq!(trim("ls\n"), "ls");
    assert_eq!(trim("ls\r\n"), "ls");
    assert_eq!(trim("\t cp a b\t"), "cp a b");
}

#[test]
fn trim_keeps_inner_white_space() {
    assert_eq!(trim(" a  b\tc "), "a  b\tc");
}

#[test]
fn trim_of_white_space_only_is_empty() {
    assert_eq!(trim(""), "");
    assert_eq!(trim(" "), "");
    assert_eq!(trim("\n"), "");
    assert_eq!(trim(" \t\r\n\u{a0}\u{3000} "), "");
}

#[test]
fn trim_leaves_a_text_without_outer_white_space() {
    assert_eq!(trim("ls"), "ls");
    assert_eq!(trim("x"), "x");
    assert_eq!(trim("文件"), "文件");
}

#[test]
fn trim_knows_white_space_beyond_ascii() {
    assert_eq!(trim("\u{a0}é\u{2003}"), "é");
    assert_eq!(trim("\u{3000}文 件\u{2028}"), "文 件");
    assert_eq!(trim("\u{200b}x\u{200b}"), "\u{200b}x\u{200b}");
}

#[test]
fn trim_agrees_with_the_standard_trim() {
    let lines = [
        "", " ", "a", " a", "a ", "  a b  ", "\n", "a\n", "\ta\t", "\u{a0}a\u{a0}",
        "\u{1680}x y\u{205f}", " \u{feff}a ", "é ", " 𝄞", "a \u{85}",
    ];
    for line in lines {
        assert_eq!(trim(line), line.trim());
    }
}
