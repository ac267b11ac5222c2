use tinysh::parse_command;

fn words(line: &str) -> Vec<String> {
    parse_command(line)
}

#[test]
fn quotes_keep_spaces_and_escaped_quote() {
    assert_eq!(words("echo 'a b' \"c\\\"d\""), vec!["echo", "a b", "c\"d"]);
}

#[test]
fn unquoted_backslash_escapes_space() {
    assert_eq!(words("echo a\\ b"), vec!["echo", "a b"]);
}

#[test]
fn retokenizing_joined_tokens_is_stable() {
    let first = words("  ls   -la  foo\n");
    assert_eq!(first, vec!["ls", "-la", "foo"]);
    let again = words(&first.join(" "));
    assert_eq!(again, first);
}

#[test]
fn empty_and_blank_lines_give_no_tokens() {
    assert!(words("").is_empty());
    assert!(words("    \n").is_empty());
}

#[test]
fn trailing_newline_is_dropped() {
    assert_eq!(words("pwd\n"), vec!["pwd"]);
}

#[test]
fn single_quotes_keep_backslashes() {
    assert_eq!(words("echo 'a\\nb'"), vec!["echo", "a\\nb"]);
}

#[test]
fn double_quotes_keep_backslash_before_other_characters() {
    assert_eq!(words("echo \"a\\nb\""), vec!["echo", "a\\nb"]);
    assert_eq!(words("echo \"a\\$b\\\\c\""), vec!["echo", "a$b\\c"]);
}

#[test]
fn double_quote_inside_single_quotes_is_literal() {
    assert_eq!(words("echo 'say \"hi\"'"), vec!["echo", "say \"hi\""]);
    assert_eq!(words("echo \"it's\""), vec!["echo", "it's"]);
}

#[test]
fn adjacent_quoted_parts_join_into_one_token() {
    assert_eq!(words("echo 'a'\"b\"c"), vec!["echo", "abc"]);
}

#[test]
fn lone_trailing_backslash_is_dropped() {
    assert_eq!(words("echo a\\"), vec!["echo", "a"]);
}

#[test]
fn escaped_quote_outside_quotes_is_literal() {
    assert_eq!(words("echo \\'x\\'"), vec!["echo", "'x'"]);
}

#[test]
fn redirection_operator_is_its_own_token() {
    assert_eq!(words("echo hi > out.txt"), vec!["echo", "hi", ">", "out.txt"]);
}
