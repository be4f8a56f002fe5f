use fastdb::lexer::{Event, Lexer, MalformedInput, Mode};
use fastdb::script::split_script;

fn statement(text: &str) -> Event {
    Event::Statement(text.to_string())
}

fn feed_all(lexer: &mut Lexer, text: &str) -> Vec<Event> {
    let mut events = Vec::new();
    for c in text.chars() {
        if let Some(event) = lexer.feed(c) {
            events.push(event);
        }
    }
    events
}

#[test]
fn splits_the_documented_example() {
    let input = "SELECT 1; -- comment ; \n SELECT ';' ; COPY t FROM STDIN;\na\tb\n\\.\n";
    let events = split_script(input).unwrap();
    assert_eq!(
        events,
        vec![
            statement("SELECT 1"),
            statement("SELECT ';'"),
            Event::BulkLoadStart("COPY t FROM STDIN".to_string()),
            Event::BulkLoadLine("a\tb".to_string()),
            Event::BulkLoadEnd,
        ]
    );
}

#[test]
fn empty_script_has_no_statements() {
    assert_eq!(split_script("").unwrap(), vec![]);
    assert_eq!(split_script("  \n\t ").unwrap(), vec![]);
}

#[test]
fn blank_statements_are_dropped() {
    assert_eq!(split_script(";;").unwrap(), vec![]);
    assert_eq!(split_script("; ;\n;SELECT 1;;").unwrap(), vec![statement("SELECT 1")]);
}

#[test]
fn trailing_text_is_a_statement() {
    assert_eq!(
        split_script("SELECT 1; SELECT 2").unwrap(),
        vec![statement("SELECT 1"), statement("SELECT 2")]
    );
    assert_eq!(split_script("SELECT 1;   ").unwrap(), vec![statement("SELECT 1")]);
}

#[test]
fn statements_are_trimmed() {
    assert_eq!(split_script("  \n SELECT 1 \t ;").unwrap(), vec![statement("SELECT 1")]);
    assert_eq!(split_script("\u{a0}SELECT 1\u{3000};").unwrap(), vec![statement("SELECT 1")]);
}

#[test]
fn semicolon_in_single_quotes_does_not_split() {
    assert_eq!(
        split_script("SELECT 'a;b'; SELECT 2;").unwrap(),
        vec![statement("SELECT 'a;b'"), statement("SELECT 2")]
    );
}

#[test]
fn semicolon_in_double_quotes_does_not_split() {
    assert_eq!(
        split_script("SELECT \"a;b\" FROM t;").unwrap(),
        vec![statement("SELECT \"a;b\" FROM t")]
    );
}

#[test]
fn semicolon_in_line_comment_does_not_split() {
    assert_eq!(
        split_script("SELECT 1 -- no ; here\n+ 2;").unwrap(),
        vec![statement("SELECT 1 + 2")]
    );
}

#[test]
fn semicolon_in_block_comment_does_not_split() {
    assert_eq!(
        split_script("SELECT /* a ; b */ 1;").unwrap(),
        vec![statement("SELECT  1")]
    );
}

#[test]
fn semicolon_in_dollar_quote_does_not_split() {
    assert_eq!(
        split_script("DO $$ BEGIN x; END $$; SELECT 1;").unwrap(),
        vec![statement("DO $$ BEGIN x; END $$"), statement("SELECT 1")]
    );
    assert_eq!(
        split_script("DO $body$ a; $$ b; $body$;").unwrap(),
        vec![statement("DO $body$ a; $$ b; $body$")]
    );
}

#[test]
fn doubled_single_quote_stays_quoted() {
    assert_eq!(
        split_script("SELECT 'it''s; fine';").unwrap(),
        vec![statement("SELECT 'it''s; fine'")]
    );
    let mut lexer = Lexer::new();
    feed_all(&mut lexer, "'a");
    assert_eq!(lexer.mode(), Mode::SingleQuote);
    feed_all(&mut lexer, "''");
    assert_eq!(lexer.mode(), Mode::SingleQuote);
}

#[test]
fn doubled_double_quote_stays_quoted() {
    assert_eq!(
        split_script("SELECT \"a\"\";b\";").unwrap(),
        vec![statement("SELECT \"a\"\";b\"")]
    );
    let mut lexer = Lexer::new();
    feed_all(&mut lexer, "\"a");
    assert_eq!(lexer.mode(), Mode::DoubleQuote);
    feed_all(&mut lexer, "\"\"");
    assert_eq!(lexer.mode(), Mode::DoubleQuote);
}

#[test]
fn quote_characters_do_not_open_inside_other_regions() {
    assert_eq!(
        split_script("SELECT '\"'; SELECT \"'\";").unwrap(),
        vec![statement("SELECT '\"'"), statement("SELECT \"'\"")]
    );
    assert_eq!(
        split_script("SELECT 1 -- it's\n; SELECT '--'; ").unwrap(),
        vec![statement("SELECT 1"), statement("SELECT '--'")]
    );
    assert_eq!(
        split_script("SELECT '/*'; SELECT '*/';").unwrap(),
        vec![statement("SELECT '/*'"), statement("SELECT '*/'")]
    );
}

#[test]
fn comments_leave_nothing_behind() {
    assert_eq!(split_script("a--x\nb;").unwrap(), vec![statement("ab")]);
    assert_eq!(split_script("a/* x */b;").unwrap(), vec![statement("ab")]);
    assert_eq!(split_script("-- only a comment\n").unwrap(), vec![]);
    assert_eq!(split_script("/* only a comment */").unwrap(), vec![]);
}

#[test]
fn single_dash_and_slash_are_text() {
    assert_eq!(split_script("SELECT 3-1, 4/2;").unwrap(), vec![statement("SELECT 3-1, 4/2")]);
    assert_eq!(split_script("SELECT 3-").unwrap(), vec![statement("SELECT 3-")]);
    assert_eq!(split_script("SELECT 3/").unwrap(), vec![statement("SELECT 3/")]);
    assert_eq!(split_script("a-;b/;").unwrap(), vec![statement("a-"), statement("b/")]);
    assert_eq!(split_script("a-'x';").unwrap(), vec![statement("a-'x'")]);
}

#[test]
fn block_comment_may_close_on_its_own_star() {
    assert_eq!(split_script("a/*/b;").unwrap(), vec![statement("ab")]);
    assert_eq!(split_script("a/* **/b;").unwrap(), vec![statement("ab")]);
}

#[test]
fn block_comments_do_not_nest() {
    assert_eq!(split_script("a/* /* */b;").unwrap(), vec![statement("ab")]);
}

#[test]
fn dollar_candidate_swallows_the_character_that_ends_it() {
    assert_eq!(split_script("SELECT $1; SELECT 2;").unwrap(), vec![statement("SELECT $1; SELECT 2")]);
    assert_eq!(split_script("SELECT $1 ; SELECT 2;").unwrap(), vec![statement("SELECT $1"), statement("SELECT 2")]);
    assert_eq!(split_script("SELECT $'; a;").unwrap(), vec![statement("SELECT $'"), statement("a")]);
    assert_eq!(split_script("SELECT $'; a';"), Err(MalformedInput::UnterminatedQuote));
}

#[test]
fn dollar_quote_closes_where_text_ends_with_delimiter() {
    assert_eq!(split_script("$$$;x;").unwrap(), vec![statement("$$$"), statement("x")]);
    assert_eq!(split_script("$a$a$;x;").unwrap(), vec![statement("$a$a$"), statement("x")]);
    assert_eq!(split_script("$a$ $b$ ; $a$;").unwrap(), vec![statement("$a$ $b$ ; $a$")]);
}

#[test]
fn dollar_tag_takes_letters_digits_and_underscore() {
    assert_eq!(split_script("$a_1Z$ ; $a_1Z$;").unwrap(), vec![statement("$a_1Z$ ; $a_1Z$")]);
    assert_eq!(split_script("$\u{e9}$ ; x;").unwrap(), vec![statement("$\u{e9}$"), statement("x")]);
}

#[test]
fn unterminated_dollar_quote_is_malformed() {
    assert_eq!(split_script("SELECT $$ abc"), Err(MalformedInput::UnterminatedDollarQuote));
    assert_eq!(split_script("SELECT 1; DO $x$ a $y$;"), Err(MalformedInput::UnterminatedDollarQuote));
}

#[test]
fn unterminated_block_comment_is_malformed() {
    assert_eq!(split_script("SELECT 1; /* abc"), Err(MalformedInput::UnterminatedComment));
    assert_eq!(split_script("/* abc *"), Err(MalformedInput::UnterminatedComment));
}

#[test]
fn unterminated_line_comment_is_malformed() {
    assert_eq!(split_script("SELECT 1; -- abc"), Err(MalformedInput::UnterminatedComment));
    assert_eq!(split_script("SELECT 1; -- abc\n").unwrap(), vec![statement("SELECT 1")]);
}

#[test]
fn unterminated_quote_is_malformed() {
    assert_eq!(split_script("SELECT 'abc"), Err(MalformedInput::UnterminatedQuote));
    assert_eq!(split_script("SELECT \"abc"), Err(MalformedInput::UnterminatedQuote));
    assert_eq!(split_script("SELECT 'abc''"), Err(MalformedInput::UnterminatedQuote));
    assert_eq!(split_script("SELECT 'abc'").unwrap(), vec![statement("SELECT 'abc'")]);
}

#[test]
fn unterminated_bulk_load_is_malformed() {
    assert_eq!(
        split_script("COPY t FROM STDIN;\na\tb\n"),
        Err(MalformedInput::UnterminatedBulkLoad)
    );
    assert_eq!(split_script("COPY t FROM STDIN;"), Err(MalformedInput::UnterminatedBulkLoad));
    assert_eq!(split_script("COPY t FROM STDIN;\n1\n\\"), Err(MalformedInput::UnterminatedBulkLoad));
}

#[test]
fn bulk_load_statement_without_data_is_malformed() {
    assert_eq!(split_script("COPY t FROM STDIN"), Err(MalformedInput::MissingBulkData));
    assert_eq!(split_script("SELECT 1; copy t from stdin  "), Err(MalformedInput::MissingBulkData));
}

#[test]
fn bulk_load_may_end_without_line_end() {
    assert_eq!(
        split_script("COPY t FROM STDIN;\n1\n\\.").unwrap(),
        vec![
            Event::BulkLoadStart("COPY t FROM STDIN".to_string()),
            Event::BulkLoadLine("1".to_string()),
            Event::BulkLoadEnd,
        ]
    );
    assert_eq!(
        split_script("COPY t FROM STDIN;\n\\.\r").unwrap(),
        vec![Event::BulkLoadStart("COPY t FROM STDIN".to_string()), Event::BulkLoadEnd]
    );
}

#[test]
fn bulk_load_relays_each_line_that_is_not_blank() {
    let input = "copy t (a, b) from stdin;\n1\tx\n\n2\ty\r\n   \n3\tz;--'\n\\.\nSELECT 1;";
    assert_eq!(
        split_script(input).unwrap(),
        vec![
            Event::BulkLoadStart("copy t (a, b) from stdin".to_string()),
            Event::BulkLoadLine("1\tx".to_string()),
            Event::BulkLoadLine("2\ty".to_string()),
            Event::BulkLoadLine("3\tz;--'".to_string()),
            Event::BulkLoadEnd,
            statement("SELECT 1"),
        ]
    );
}

#[test]
fn bulk_load_resumes_ordinary_scanning() {
    let mut lexer = Lexer::new();
    let events = feed_all(&mut lexer, "COPY t FROM STDIN;");
    assert_eq!(events, vec![Event::BulkLoadStart("COPY t FROM STDIN".to_string())]);
    assert_eq!(lexer.mode(), Mode::BulkLoad);
    let events = feed_all(&mut lexer, "\na\nb\n\\.\n");
    assert_eq!(
        events,
        vec![
            Event::BulkLoadLine("a".to_string()),
            Event::BulkLoadLine("b".to_string()),
            Event::BulkLoadEnd
        ]
    );
    assert_eq!(lexer.mode(), Mode::Normal);
    assert_eq!(feed_all(&mut lexer, "SELECT ';';"), vec![statement("SELECT ';'")]);
    assert_eq!(lexer.finish(), Ok(None));
}

#[test]
fn bulk_load_needs_verb_and_source() {
    assert_eq!(
        split_script("COPY t TO STDOUT; SELECT 'from stdin';").unwrap(),
        vec![statement("COPY t TO STDOUT"), statement("SELECT 'from stdin'")]
    );
    assert_eq!(
        split_script("  CoPy t FrOm StDiN;\n\\.\n").unwrap(),
        vec![Event::BulkLoadStart("CoPy t FrOm StDiN".to_string()), Event::BulkLoadEnd]
    );
}

#[test]
fn lexer_reports_its_mode() {
    let mut lexer = Lexer::new();
    assert_eq!(lexer.mode(), Mode::Normal);
    assert_eq!(lexer.feed('-'), None);
    assert_eq!(lexer.mode(), Mode::Dash);
    assert_eq!(lexer.feed('-'), None);
    assert_eq!(lexer.mode(), Mode::LineComment);
    assert_eq!(lexer.feed('\n'), None);
    assert_eq!(lexer.mode(), Mode::Normal);
    assert_eq!(lexer.feed('/'), None);
    assert_eq!(lexer.mode(), Mode::Slash);
    assert_eq!(lexer.feed('*'), None);
    assert_eq!(lexer.mode(), Mode::BlockCommentStar);
    assert_eq!(lexer.feed('x'), None);
    assert_eq!(lexer.mode(), Mode::BlockComment);
    assert_eq!(lexer.feed('*'), None);
    assert_eq!(lexer.feed('/'), None);
    assert_eq!(lexer.mode(), Mode::Normal);
    assert_eq!(lexer.feed('$'), None);
    assert_eq!(lexer.mode(), Mode::DollarTag);
    assert_eq!(lexer.feed('$'), None);
    assert_eq!(lexer.mode(), Mode::DollarQuote);
    assert_eq!(lexer.finish(), Err(MalformedInput::UnterminatedDollarQuote));
}

#[test]
fn statement_count_matches_top_level_semicolons() {
    let input = "a; b 'x;y' ; c \"p;q\"; d -- r;s\n; e /* t;u */; f $$ v;w $$; g";
    let events = split_script(input).unwrap();
    assert_eq!(events.len(), 7);
    assert_eq!(events[6], statement("g"));
}
