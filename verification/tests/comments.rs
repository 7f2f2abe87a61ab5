use vericto::comments::comment_spans;

fn comments(sql: &str) -> Vec<String> {
    let chars: Vec<char> = sql.chars().collect();
    comment_spans(&chars)
        .into_iter()
        .map(|(from, to)| chars[from..to].iter().collect())
        .collect()
}

#[test]
fn comments_are_found_line_by_line() {
    assert_eq!(
        comments("a '--x' --y\r\n\nb -- c -- d"),
        vec!["--y".to_string(), String::new(), "-- c -- d".to_string()]
    );
    assert!(comments("").is_empty());
}

#[test]
fn one_dialect_is_enough() {
    assert_eq!(comments("'\\' --x'"), vec!["--x'".to_string()]);
    assert_eq!(comments("'a\\'' --x"), vec!["--x".to_string()]);
    assert_eq!(comments("'a' '--x'"), vec![String::new()]);
    assert_eq!(comments("q'(--x)'"), vec![String::new()]);
    assert_eq!(comments("\"--x\" `y` --z"), vec!["--z".to_string()]);
}

#[test]
fn unclosed_quotes_reach_to_the_end() {
    assert_eq!(comments("'a\n--x"), vec![String::new(), String::new()]);
    assert_eq!(comments("'a\\"), vec![String::new()]);
}
