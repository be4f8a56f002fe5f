use fastdb::sql::{
    is_query, normalize_sql_head, quote_ident, read_only_head, schema_change,
    strip_leading_comments, SchemaChange,
};
use fastdb::text::{
    blank, char_is_space, find_first, push_decimal, starts_with, to_chars, to_lowercase, to_text,
    trimmed,
};

fn chars(text: &str) -> Vec<char> {
    text.chars().collect()
}

#[test]
fn white_space_is_what_the_standard_library_says() {
    let mut n: u32 = 0;
    while n <= 0x10ffff {
        if let Some(c) = char::from_u32(n) {
            assert_eq!(char_is_space(c), c.is_whitespace(), "at {}", n);
        }
        n += 1;
    }
}

#[test]
fn trimmed_is_what_the_standard_library_says() {
    for text in ["", " ", "a", " a ", "\t\na b\r\n", "\u{2003}x\u{85}", "  \u{a0} "] {
        assert_eq!(to_text(&trimmed(&chars(text))), text.trim());
        assert_eq!(blank(&chars(text)), text.trim().is_empty());
    }
}

#[test]
fn chars_and_text_round_trip() {
    assert_eq!(to_chars("h\u{e9}llo"), vec!['h', '\u{e9}', 'l', 'l', 'o']);
    assert_eq!(to_text(&['a', '\u{1F600}']), "a\u{1F600}");
}

#[test]
fn lowercase_is_the_standard_one() {
    assert_eq!(to_text(&to_lowercase(&chars("SeLeCT \u{c9}"))), "select \u{e9}");
}

#[test]
fn prefix_and_find() {
    assert!(starts_with(&chars("select 1"), &chars("select")));
    assert!(!starts_with(&chars("sel"), &chars("select")));
    assert!(starts_with(&chars("x"), &chars("")));
    assert_eq!(find_first(&chars("a from stdin"), &chars("from stdin")), Some(2));
    assert_eq!(find_first(&chars("abcabc"), &chars("bc")), Some(1));
    assert_eq!(find_first(&chars("abc"), &chars("")), Some(0));
    assert_eq!(find_first(&chars("abc"), &chars("abcd")), None);
    assert_eq!(find_first(&chars("abc"), &chars("x")), None);
}

#[test]
fn decimal_has_no_leading_zeros() {
    for n in [0usize, 7, 10, 42, 100, 1234567890] {
        let mut out = chars("n=");
        push_decimal(&mut out, n);
        assert_eq!(to_text(&out), format!("n={}", n));
    }
}

#[test]
fn strips_leading_comments() {
    assert_eq!(strip_leading_comments("  SELECT 1 "), "SELECT 1 ");
    assert_eq!(strip_leading_comments("-- a\n  SELECT 1"), "SELECT 1");
    assert_eq!(strip_leading_comments("/* a */ /* b */\n-- c\nSELECT 1"), "SELECT 1");
    assert_eq!(strip_leading_comments("-- never ends"), "");
    assert_eq!(strip_leading_comments("/* never ends"), "");
    assert_eq!(strip_leading_comments("/*/ x"), "x");
    assert_eq!(strip_leading_comments(""), "");
    assert_eq!(strip_leading_comments("-x"), "-x");
    assert_eq!(strip_leading_comments("\u{e9} -- a"), "\u{e9} -- a");
}

#[test]
fn normalizes_the_head() {
    assert_eq!(normalize_sql_head("  -- c\n  DROP Table T"), "drop table t");
    assert_eq!(normalize_sql_head("/* x"), "");
}

#[test]
fn tells_queries_from_commands() {
    assert!(is_query("SELECT 1"));
    assert!(is_query("  -- c\n with x as (select 1) select * from x"));
    assert!(is_query("/* c */ SHOW search_path"));
    assert!(is_query("Explain select 1"));
    assert!(!is_query("INSERT INTO t VALUES (1)"));
    assert!(!is_query("-- select\nUPDATE t SET a = 1"));
    assert!(!is_query(""));
    assert!(read_only_head("selection"));
    assert!(!read_only_head("SELECT"));
}

#[test]
fn reads_schema_changes() {
    assert_eq!(schema_change("create table t (a int)"), Some(SchemaChange::CreateTable));
    assert_eq!(schema_change("drop table t"), Some(SchemaChange::DropTable));
    assert_eq!(schema_change("drop database d"), Some(SchemaChange::DropDatabase));
    assert_eq!(schema_change("drop schema s"), Some(SchemaChange::DropSchema));
    assert_eq!(schema_change("create index i on t (a)"), None);
    assert_eq!(schema_change("select 'drop table t'"), None);
}

#[test]
fn quotes_identifiers() {
    assert_eq!(quote_ident("public"), "\"public\"");
    assert_eq!(quote_ident("we\"ird"), "\"we\"\"ird\"");
    assert_eq!(quote_ident(""), "\"\"");
    assert_eq!(quote_ident("\"\""), "\"\"\"\"\"\"");
}
