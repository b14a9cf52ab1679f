use llm_doze::shell::shell_words;

#[test]
fn test_shell_words_simple() {
    assert_eq!(
        shell_words("/usr/bin/server -m model.gguf --port 8091"),
        vec!["/usr/bin/server", "-m", "model.gguf", "--port", "8091"]
    );
}

#[test]
fn test_shell_words_quoted() {
    assert_eq!(
        shell_words(r#"/usr/bin/server -m "my model.gguf" --port 8091"#),
        vec!["/usr/bin/server", "-m", "my model.gguf", "--port", "8091"]
    );
}

#[test]
fn test_shell_words_single_quotes() {
    assert_eq!(
        shell_words("/usr/bin/server -m 'my model.gguf'"),
        vec!["/usr/bin/server", "-m", "my model.gguf"]
    );
}

#[test]
fn test_shell_words_empty() {
    assert_eq!(shell_words(""), Vec::<String>::new());
}

#[test]
fn blanks_and_tabs_leave_no_empty_words() {
    assert_eq!(shell_words("  a \t b\t"), vec!["a", "b"]);
    assert_eq!(shell_words(" \t "), Vec::<String>::new());
    assert_eq!(shell_words("'' a \"\""), vec!["a"]);
}

#[test]
fn a_newline_is_part_of_a_word() {
    assert_eq!(shell_words("a\nb c"), vec!["a\nb", "c"]);
}

#[test]
fn quotes_join_with_what_stands_beside_them() {
    assert_eq!(shell_words("a'b c'd\"e f\""), vec!["ab cde f"]);
    assert_eq!(shell_words("'a\"b' \"c'd\""), vec!["a\"b", "c'd"]);
}

#[test]
fn backslashes_escape_but_in_single_quotes() {
    assert_eq!(shell_words(r"a\ b \'c\' \\"), vec!["a b", "'c'", "\\"]);
    assert_eq!(shell_words(r#""a\"b\\c\d""#), vec!["a\"b\\cd"]);
    assert_eq!(shell_words(r"'a\b' c"), vec!["a\\b", "c"]);
    assert_eq!(shell_words("a\\"), vec!["a"]);
}

#[test]
fn an_open_quote_runs_to_the_end() {
    assert_eq!(shell_words("a 'b c"), vec!["a", "b c"]);
}

#[test]
fn spelling_and_splitting_undo_each_other() {
    let words = vec!["a b", "it's", "\t", "\"\\", "\u{e9}"];
    let spelled: Vec<String> = words
        .iter()
        .map(|word| word.chars().map(|c| format!("\\{}", c)).collect())
        .collect();
    assert_eq!(shell_words(&spelled.join(" ")), words);
    let words = vec!["a b", "\"\\", "\t"];
    let spelled: Vec<String> = words.iter().map(|word| format!("'{}'", word)).collect();
    assert_eq!(shell_words(&spelled.join(" ")), words);
    let words = vec!["a b", "it's", "\t"];
    let spelled: Vec<String> = words.iter().map(|word| format!("\"{}\"", word)).collect();
    assert_eq!(shell_words(&spelled.join(" ")), words);
}
