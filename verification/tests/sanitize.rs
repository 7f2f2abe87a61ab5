use vericto::sanitize::{dollar_tag, placeholder_style, prev_is_boundary, sanitize, Placeholder};

#[test]
fn strips_string_literals_postgres_numbered() {
    assert_eq!(
        sanitize("SELECT * FROM users WHERE email = 'a@b.com'", "postgres"),
        "SELECT * FROM users WHERE email = $1"
    );
}

#[test]
fn mysql_uses_question_mark() {
    assert_eq!(
        sanitize("SELECT * FROM users WHERE email = 'a@b.com'", "mysql"),
        "SELECT * FROM users WHERE email = ?"
    );
}

#[test]
fn numbered_placeholders_increment() {
    assert_eq!(
        sanitize("WHERE a = 'x' AND b = 'y' AND c = 5", "postgres"),
        "WHERE a = $1 AND b = $2 AND c = $3"
    );
}

#[test]
fn handles_escaped_quotes() {
    assert_eq!(
        sanitize("WHERE name = 'O''Brien'", "postgres"),
        "WHERE name = $1"
    );
}

#[test]
fn strips_numbers_but_not_identifiers() {
    assert_eq!(
        sanitize("WHERE id = 42 AND col2 = 7", "postgres"),
        "WHERE id = $1 AND col2 = $2"
    );
}

#[test]
fn leaves_dollar_quoted_blocks_intact() {
    let sql = "DO $$ BEGIN PERFORM 'secret'; END $$";
    assert_eq!(sanitize(sql, "postgres"), sql);
}

#[test]
fn leaves_quoted_identifiers_intact() {
    assert_eq!(
        sanitize(r#"SELECT "user's col" FROM t"#, "postgres"),
        r#"SELECT "user's col" FROM t"#
    );
}

#[test]
fn preserves_comments() {
    let sql = "SELECT 1 -- note: keep 'this'\nFROM t";
    assert_eq!(
        sanitize(sql, "postgres"),
        "SELECT $1 -- note: keep 'this'\nFROM t"
    );
}

#[test]
fn block_comments_and_tagged_dollar_quotes_stay() {
    assert_eq!(
        sanitize("SELECT /* 'kept' 5 */ 'gone'", "postgres"),
        "SELECT /* 'kept' 5 */ $1"
    );
    let sql = "SELECT $body$ it's 42 $body$ FROM t";
    assert_eq!(sanitize(sql, "postgres"), sql);
}

#[test]
fn literals_never_reach_the_output() {
    let a = sanitize("SELECT * FROM t WHERE k = 'first' AND n = 1.5", "postgres");
    let b = sanitize("SELECT * FROM t WHERE k = 'second' AND n = 27", "postgres");
    assert_eq!(a, b);
    assert!(!a.contains('\''));
}

#[test]
fn text_without_literals_is_untouched() {
    let sql = "SELECT café, naïve FROM déjà_vu";
    assert_eq!(sanitize(sql, "postgres"), sql);
    assert_eq!(sanitize("", "postgres"), "");
}

#[test]
fn unterminated_literals_are_hidden_to_the_end() {
    assert_eq!(sanitize("WHERE a = 'secret", "postgres"), "WHERE a = $1");
}

#[test]
fn styles_and_boundaries() {
    assert_eq!(placeholder_style("mysql"), Placeholder::Question);
    assert_eq!(placeholder_style("postgres"), Placeholder::Numbered);
    assert!(prev_is_boundary(&[]));
    assert!(prev_is_boundary(&['a', ' ']));
    assert!(!prev_is_boundary(&['c', 'o', 'l']));
    let chars: Vec<char> = "$tag$ x".chars().collect();
    assert!(dollar_tag(&chars, 0).is_some());
    let chars: Vec<char> = "$1 x".chars().collect();
    assert!(dollar_tag(&chars, 0).is_none());
}

#[test]
fn signs_behind_operators_belong_to_the_number() {
    assert_eq!(sanitize("WHERE a = -5 AND b>=+1.5", "postgres"), "WHERE a = $1 AND b>=$2");
    assert_eq!(sanitize("SELECT a -5, b - 3", "mysql"), "SELECT a -?, b - ?");
    assert_eq!(sanitize("SELECT 7 -5", "postgres"), "SELECT $1 -$2");
    assert_eq!(sanitize("SELECT a * -b2", "postgres"), "SELECT a * -b2");
    assert_eq!(sanitize("SELECT a --5\n+ 6", "postgres"), "SELECT a --5\n+ $1");
}

#[test]
fn digits_of_names_are_kept() {
    assert_eq!(sanitize("SELECT t1.c_2 FROM t1", "postgres"), "SELECT t1.c_2 FROM t1");
    assert_eq!(sanitize("SELECT t1.c_2, 3", "mysql"), "SELECT t1.c_2, ?");
}

#[test]
fn numbers_behind_literals_are_replaced() {
    assert_eq!(sanitize("SELECT 'a'5", "postgres"), "SELECT $1$2");
    assert_eq!(sanitize("SELECT 'a'5", "mysql"), "SELECT ??");
}

#[test]
fn sanitizing_a_mysql_text_again_changes_nothing() {
    for sql in [
        "SELECT 'it''s', -5, 1.5 FROM t1 -- 7 '\nWHERE a = -2 /* 'x' */",
        "SELECT $a$1 FROM `t 1` WHERE x = '$a$' AND y>=+3",
        "SELECT $$body 1$$, $1, 'open",
        "-'a'-5--6",
    ] {
        let once = sanitize(sql, "mysql");
        assert_eq!(sanitize(&once, "mysql"), once);
    }
}
