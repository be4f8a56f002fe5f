//! The lexical rules of a script, stated by position: where each comment,
//! quoted region and dollar-quoted body ends, and hence where statements
//! end. [`scan`] reads a script by these rules, a whole region at a time;
//! [`lemma_script_is_scan`] shows that the splitter, which sees one
//! character at a time, yields the same.
use crate::lexer::{
    finish, initial, is_bulk_load, is_tag_char, run, script, sentinel, step,
    strip_carriage_returns, with_event, EventView, LexerState, MalformedInput, Mode,
};
use crate::script::{lemma_inside_region, lemma_line_text, lemma_run_concat, lemma_whole_line};
use crate::text::{find_from, is_blank, lemma_find_from, occurs_at, trim};
use vstd::prelude::*;

verus! {

/// What a script yields from some position on: the events in order, or why
/// it is malformed.
pub open spec fn after(events: Seq<EventView>, rest: Result<Seq<EventView>, MalformedInput>) -> Result<
    Seq<EventView>,
    MalformedInput,
> {
    match rest {
        Ok(more) => Ok(events + more),
        Err(e) => Err(e),
    }
}

/// What the text `text` yields where the script ends after it, outside
/// every region: one more statement, unless it is blank; a bulk-load
/// statement has no data there.
pub open spec fn end_of_text(text: Seq<char>) -> Result<Seq<EventView>, MalformedInput> {
    let statement = trim(text);
    if statement.len() == 0 {
        Ok(seq![])
    } else if is_bulk_load(statement) {
        Err(MalformedInput::MissingBulkData)
    } else {
        Ok(seq![EventView::Statement(statement)])
    }
}

/// Where the quoted region ends that `from` is inside of: at the first
/// `quote` at or after `from` that no second `quote` follows at once. Two
/// in a row stand for one inside the region.
pub open spec fn quote_end(input: Seq<char>, quote: char, from: int) -> Option<int>
    decreases input.len() - from,
{
    if from < 0 || from >= input.len() {
        None
    } else if input[from] != quote {
        quote_end(input, quote, from + 1)
    } else if from + 1 < input.len() && input[from + 1] == quote {
        quote_end(input, quote, from + 2)
    } else {
        Some(from)
    }
}

/// Where the tag ends that starts at `from`: at the first character at or
/// after `from` that cannot stand in a tag, or at the end of the input.
pub open spec fn tag_end(input: Seq<char>, from: int) -> int
    decreases input.len() - from,
{
    if 0 <= from < input.len() && is_tag_char(input[from]) {
        tag_end(input, from + 1)
    } else {
        from
    }
}

/// What `input` yields from position `at` on, outside every region, with
/// `text` the text of the statement so far.
///
/// `--` opens a comment that runs to the next line end, and `/*` one that
/// runs to the next `*/`, which may start with the `*` of the `/*`; neither
/// leaves anything in the statement. `$`, a tag and `$` open a body that
/// runs to the next place where the three stand again, counted from the
/// character after the first `$`; a `$` and a tag that no `$` follows are
/// plain text, and so is the character after them. `'` and `"` open a
/// region that runs to [`quote_end`]. `;` ends the statement. Every other
/// character is text of the statement.
pub open spec fn scan(input: Seq<char>, at: int, text: Seq<char>) -> Result<
    Seq<EventView>,
    MalformedInput,
>
    decreases input.len() - at, 0int,
    via scan_decreases
{
    if at < 0 || at >= input.len() {
        end_of_text(text)
    } else {
        let c = input[at];
        if c == '-' && at + 1 < input.len() && input[at + 1] == '-' {
            match find_from(input, seq!['\n'], at + 2) {
                Some(end) => scan(input, end + 1, text),
                None => Err(MalformedInput::UnterminatedComment),
            }
        } else if c == '/' && at + 1 < input.len() && input[at + 1] == '*' {
            match find_from(input, seq!['*', '/'], at + 1) {
                Some(star) => scan(input, star + 2, text),
                None => Err(MalformedInput::UnterminatedComment),
            }
        } else if c == '$' {
            let tag = tag_end(input, at + 1);
            if tag >= input.len() {
                end_of_text(text + input.subrange(at, input.len() as int))
            } else if input[tag] == '$' {
                let delimiter = input.subrange(at, tag + 1);
                match find_from(input, delimiter, at + 1) {
                    Some(close) => scan(
                        input,
                        close + delimiter.len(),
                        text + input.subrange(at, close + delimiter.len()),
                    ),
                    None => Err(MalformedInput::UnterminatedDollarQuote),
                }
            } else {
                scan(input, tag + 1, text + input.subrange(at, tag + 1))
            }
        } else if c == '\'' || c == '"' {
            match quote_end(input, c, at + 1) {
                Some(end) => scan(input, end + 1, text + input.subrange(at, end + 1)),
                None => Err(MalformedInput::UnterminatedQuote),
            }
        } else if c == ';' {
            let statement = trim(text);
            if statement.len() == 0 {
                scan(input, at + 1, seq![])
            } else if is_bulk_load(statement) {
                after(seq![EventView::BulkLoadStart(statement)], scan_data(input, at + 1))
            } else {
                after(seq![EventView::Statement(statement)], scan(input, at + 1, seq![]))
            }
        } else {
            scan(input, at + 1, text.push(c))
        }
    }
}

/// What `input` yields from position `at` on, where a line of bulk-load
/// data starts at `at`: each line that is not blank, without the carriage
/// returns that end it, up to the line that ends the data; then what
/// follows that line outside every region. The last line of the input may
/// end the data without a line end of its own.
pub open spec fn scan_data(input: Seq<char>, at: int) -> Result<Seq<EventView>, MalformedInput>
    decreases input.len() - at, 1int,
    via scan_data_decreases
{
    if at < 0 || at > input.len() {
        Err(MalformedInput::UnterminatedBulkLoad)
    } else {
        match find_from(input, seq!['\n'], at) {
            Some(end) => {
                let line = strip_carriage_returns(input.subrange(at, end));
                if line == sentinel() {
                    after(seq![EventView::BulkLoadEnd], scan(input, end + 1, seq![]))
                } else if is_blank(line) {
                    scan_data(input, end + 1)
                } else {
                    after(seq![EventView::BulkLoadLine(line)], scan_data(input, end + 1))
                }
            },
            None => if strip_carriage_returns(input.subrange(at, input.len() as int))
                == sentinel() {
                Ok(seq![EventView::BulkLoadEnd])
            } else {
                Err(MalformedInput::UnterminatedBulkLoad)
            },
        }
    }
}

/// A tag ends at or after the place where it starts, and inside the input
/// or at its end.
pub proof fn lemma_tag_end(input: Seq<char>, from: int)
    requires
        0 <= from <= input.len(),
    ensures
        from <= tag_end(input, from) <= input.len(),
        forall|i: int| from <= i < tag_end(input, from) ==> is_tag_char(#[trigger] input[i]),
        tag_end(input, from) < input.len() ==> !is_tag_char(input[tag_end(input, from)]),
    decreases input.len() - from,
{
    if from < input.len() && is_tag_char(input[from]) {
        lemma_tag_end(input, from + 1);
    }
}

/// A quoted region ends at or after the place from which its end is
/// sought.
pub proof fn lemma_quote_end(input: Seq<char>, quote: char, from: int)
    requires
        0 <= from,
    ensures
        match quote_end(input, quote, from) {
            Some(end) => from <= end < input.len() && input[end] == quote,
            None => true,
        },
    decreases input.len() - from,
{
    if from >= input.len() {
    } else if input[from] != quote {
        lemma_quote_end(input, quote, from + 1);
    } else if from + 1 < input.len() && input[from + 1] == quote {
        lemma_quote_end(input, quote, from + 2);
    }
}

#[via_fn]
proof fn scan_decreases(input: Seq<char>, at: int, text: Seq<char>) {
    if 0 <= at < input.len() {
        lemma_find_from(input, seq!['\n'], at + 2);
        lemma_find_from(input, seq!['*', '/'], at + 1);
        lemma_tag_end(input, at + 1);
        let tag = tag_end(input, at + 1);
        if tag < input.len() {
            lemma_find_from(input, input.subrange(at, tag + 1), at + 1);
        }
        lemma_quote_end(input, input[at], at + 1);
    }
}

#[via_fn]
proof fn scan_data_decreases(input: Seq<char>, at: int) {
    if 0 <= at <= input.len() {
        lemma_find_from(input, seq!['\n'], at);
    }
}

/// What the splitter yields from the state `s` on for the rest `rest` of a
/// script.
pub open spec fn rest_from(s: LexerState, rest: Seq<char>) -> Result<Seq<EventView>, MalformedInput> {
    match finish(run(s, rest).0) {
        Ok(event) => Ok(with_event(run(s, rest).1, event)),
        Err(e) => Err(e),
    }
}

/// What the splitter yields for `a + rest` is what it yields for `a`, and
/// then what it yields for `rest` from the state after `a`.
proof fn lemma_rest_split(s: LexerState, a: Seq<char>, rest: Seq<char>)
    ensures
        rest_from(s, a + rest) == after(run(s, a).1, rest_from(run(s, a).0, rest)),
{
    lemma_run_concat(s, a, rest);
    let mid = run(s, a).0;
    match finish(run(mid, rest).0) {
        Ok(event) => {
            assert(with_event(run(s, a).1 + run(mid, rest).1, event) == run(s, a).1 + with_event(
                run(mid, rest).1,
                event,
            ));
        },
        Err(_) => {},
    }
}

/// One character is one step.
proof fn lemma_run_one(s: LexerState, c: char)
    ensures
        run(s, seq![c]) == (step(s, c).0, with_event(seq![], step(s, c).1)),
{
    let one = seq![c];
    assert(one.drop_last() == Seq::<char>::empty());
    assert(one.last() == c);
    assert(run(s, one.drop_last()) == (s, Seq::<EventView>::empty()));
}

/// Two states from which the end of the script and the next character
/// yield the same yield the same for every rest.
proof fn lemma_same_rest(s1: LexerState, s2: LexerState, rest: Seq<char>)
    requires
        finish(s1) == finish(s2),
        rest.len() > 0 ==> step(s1, rest[0]) == step(s2, rest[0]),
    ensures
        rest_from(s1, rest) == rest_from(s2, rest),
{
    if rest.len() > 0 {
        let first = seq![rest[0]];
        assert(rest == first + rest.skip(1));
        lemma_rest_split(s1, first, rest.skip(1));
        lemma_rest_split(s2, first, rest.skip(1));
        lemma_run_one(s1, rest[0]);
        lemma_run_one(s2, rest[0]);
    }
}

/// A needle of one character stands where that character stands.
proof fn lemma_occurs_one(input: Seq<char>, c: char, at: int)
    ensures
        occurs_at(input, seq![c], at) <==> 0 <= at < input.len() && input[at] == c,
{
    if 0 <= at < input.len() {
        if input[at] == c {
            assert(input.subrange(at, at + 1) == seq![c]);
        } else {
            assert(input.subrange(at, at + 1)[0] == input[at]);
        }
    }
}

/// A needle of two characters stands where the two stand one after the
/// other.
proof fn lemma_occurs_two(input: Seq<char>, c: char, d: char, at: int)
    ensures
        occurs_at(input, seq![c, d], at) <==> 0 <= at && at + 1 < input.len() && input[at] == c
            && input[at + 1] == d,
{
    if 0 <= at && at + 1 < input.len() {
        if input[at] == c && input[at + 1] == d {
            assert(input.subrange(at, at + 2) == seq![c, d]);
        } else {
            assert(input.subrange(at, at + 2)[0] == input[at]);
            assert(input.subrange(at, at + 2)[1] == input[at + 1]);
        }
    }
}

/// The first place where a needle stands is the place where it stands and
/// before which it does not.
proof fn lemma_find_is_first(input: Seq<char>, needle: Seq<char>, from: int, at: int)
    requires
        0 <= from <= at,
        occurs_at(input, needle, at),
        forall|k: int| from <= k < at ==> !occurs_at(input, needle, k),
    ensures
        find_from(input, needle, from) == Some(at),
{
    lemma_find_from(input, needle, from);
}

/// A needle that stands nowhere at or after `from` is not found.
proof fn lemma_find_none(input: Seq<char>, needle: Seq<char>, from: int)
    requires
        0 <= from,
        forall|k: int| from <= k ==> !occurs_at(input, needle, k),
    ensures
        find_from(input, needle, from) is None,
{
    lemma_find_from(input, needle, from);
}

/// One more character at the front: reading `c` and then `rest`.
proof fn lemma_run_front(s: LexerState, c: char, rest: Seq<char>)
    requires
        step(s, c).1 is None,
    ensures
        run(s, seq![c] + rest) == run(step(s, c).0, rest),
{
    lemma_run_one(s, c);
    lemma_run_concat(s, seq![c], rest);
    assert(Seq::<EventView>::empty() + run(step(s, c).0, rest).1 == run(step(s, c).0, rest).1);
}

/// A line comment runs to the next line end and leaves nothing; where no
/// line end follows, the script ends inside it.
pub proof fn lemma_line_comment(input: Seq<char>, from: int, s: LexerState)
    requires
        s.mode == Mode::LineComment,
        0 <= from <= input.len(),
    ensures
        match find_from(input, seq!['\n'], from) {
            Some(end) => from <= end < input.len() && run(s, input.subrange(from, end + 1)) == (
                LexerState { mode: Mode::Normal, ..s },
                Seq::<EventView>::empty(),
            ),
            None => run(s, input.skip(from)) == (s, Seq::<EventView>::empty()),
        },
{
    lemma_find_from(input, seq!['\n'], from);
    assert forall|k: int| occurs_at(input, seq!['\n'], k) <==> 0 <= k < input.len() && input[k]
        == '\n' by {
        lemma_occurs_one(input, '\n', k);
    }
    match find_from(input, seq!['\n'], from) {
        Some(end) => {
            let body = input.subrange(from, end);
            assert forall|i: int| 0 <= i < body.len() implies body[i] != '\n' by {
                assert(!occurs_at(input, seq!['\n'], from + i));
            }
            lemma_inside_region(s, body);
            let all = input.subrange(from, end + 1);
            assert(all.drop_last() == body);
            assert(all.last() == '\n');
            assert(run(s, body).0 == s);
        },
        None => {
            let body = input.skip(from);
            assert forall|i: int| 0 <= i < body.len() implies body[i] != '\n' by {
                assert(!occurs_at(input, seq!['\n'], from + i));
            }
            lemma_inside_region(s, body);
            assert(run(s, body).0 == s);
        },
    }
}

/// A block comment runs to the first `*/` whose `*` stands at or after
/// `open`, and leaves nothing; where there is none, the script ends inside
/// it. `from` is how far the comment has been read, and `s` the state
/// there.
pub proof fn lemma_block_comment(input: Seq<char>, open: int, from: int, s: LexerState)
    requires
        0 <= open < from <= input.len(),
        s.mode == Mode::BlockComment || s.mode == Mode::BlockCommentStar,
        (s.mode == Mode::BlockCommentStar) == (input[from - 1] == '*'),
        forall|k: int| open <= k < from - 1 ==> !occurs_at(input, seq!['*', '/'], k),
    ensures
        match find_from(input, seq!['*', '/'], open) {
            Some(star) => from <= star + 2 <= input.len() && run(
                s,
                input.subrange(from, star + 2),
            ) == (LexerState { mode: Mode::Normal, ..s }, Seq::<EventView>::empty()),
            None => run(s, input.skip(from)).1 == Seq::<EventView>::empty() && (run(
                s,
                input.skip(from),
            ).0.mode == Mode::BlockComment || run(s, input.skip(from)).0.mode
                == Mode::BlockCommentStar),
        },
    decreases input.len() - from,
{
    let needle = seq!['*', '/'];
    assert forall|k: int| occurs_at(input, needle, k) <==> 0 <= k && k + 1 < input.len()
        && input[k] == '*' && input[k + 1] == '/' by {
        lemma_occurs_two(input, '*', '/', k);
    }
    if from == input.len() {
        lemma_find_none(input, needle, open);
        assert(input.skip(from) == Seq::<char>::empty());
    } else {
        let c = input[from];
        if s.mode == Mode::BlockCommentStar && c == '/' {
            lemma_find_is_first(input, needle, open, from - 1);
            assert(input.subrange(from, from + 1) == seq![c]);
            lemma_run_one(s, c);
        } else {
            let next = step(s, c).0;
            lemma_block_comment(input, open, from + 1, next);
            match find_from(input, needle, open) {
                Some(star) => {
                    lemma_find_from(input, needle, open);
                    assert(input.subrange(from, star + 2) == seq![c] + input.subrange(
                        from + 1,
                        star + 2,
                    ));
                    lemma_run_front(s, c, input.subrange(from + 1, star + 2));
                },
                None => {
                    assert(input.skip(from) == seq![c] + input.skip(from + 1));
                    lemma_run_front(s, c, input.skip(from + 1));
                },
            }
        }
    }
}

/// The mode inside the region that `quote` delimits.
pub open spec fn quoted(quote: char) -> Mode {
    if quote == '\'' {
        Mode::SingleQuote
    } else {
        Mode::DoubleQuote
    }
}

/// The mode after a `quote` inside the region that it delimits.
pub open spec fn quoted_end(quote: char) -> Mode {
    if quote == '\'' {
        Mode::SingleQuoteEnd
    } else {
        Mode::DoubleQuoteEnd
    }
}

/// A quoted region runs to [`quote_end`] and is kept as it is; where it has
/// no end, the script ends inside it.
pub proof fn lemma_quoted_region(input: Seq<char>, quote: char, from: int, s: LexerState)
    requires
        quote == '\'' || quote == '"',
        s.mode == quoted(quote),
        0 <= from <= input.len(),
    ensures
        match quote_end(input, quote, from) {
            Some(end) => from <= end < input.len() && run(s, input.subrange(from, end + 1)) == (
                LexerState {
                    mode: quoted_end(quote),
                    statement: s.statement + input.subrange(from, end + 1),
                    ..s
                },
                Seq::<EventView>::empty(),
            ),
            None => run(s, input.skip(from)).1 == Seq::<EventView>::empty() && run(
                s,
                input.skip(from),
            ).0.mode == quoted(quote),
        },
    decreases input.len() - from,
{
    lemma_quote_end(input, quote, from);
    if from >= input.len() {
        assert(input.skip(from) == Seq::<char>::empty());
    } else if input[from] != quote {
        let c = input[from];
        let next = step(s, c).0;
        lemma_quoted_region(input, quote, from + 1, next);
        match quote_end(input, quote, from) {
            Some(end) => {
                lemma_quote_end(input, quote, from + 1);
                let tail = input.subrange(from + 1, end + 1);
                assert(input.subrange(from, end + 1) == seq![c] + tail);
                lemma_run_front(s, c, tail);
                assert(s.statement.push(c) + tail == s.statement + input.subrange(from, end + 1));
            },
            None => {
                assert(input.skip(from) == seq![c] + input.skip(from + 1));
                lemma_run_front(s, c, input.skip(from + 1));
            },
        }
    } else if from + 1 < input.len() && input[from + 1] == quote {
        let inside = step(s, quote).0;
        let next = step(inside, quote).0;
        lemma_quoted_region(input, quote, from + 2, next);
        match quote_end(input, quote, from) {
            Some(end) => {
                lemma_quote_end(input, quote, from + 2);
                let tail = input.subrange(from + 2, end + 1);
                assert(input.subrange(from, end + 1) == seq![quote] + (seq![quote] + tail));
                lemma_run_front(inside, quote, tail);
                lemma_run_front(s, quote, seq![quote] + tail);
                assert(s.statement.push(quote).push(quote) + tail == s.statement
                    + input.subrange(from, end + 1));
            },
            None => {
                assert(input.skip(from) == seq![quote] + (seq![quote] + input.skip(from + 2)));
                lemma_run_front(inside, quote, input.skip(from + 2));
                lemma_run_front(s, quote, seq![quote] + input.skip(from + 2));
            },
        }
    } else {
        assert(input.subrange(from, from + 1) == seq![quote]);
        lemma_run_one(s, quote);
        assert(s.statement.push(quote) == s.statement + input.subrange(from, from + 1));
    }
}

/// The tag of a dollar quote is kept as text and gathered as part of the
/// delimiter, up to [`tag_end`].
pub proof fn lemma_tag(input: Seq<char>, from: int, s: LexerState)
    requires
        s.mode == Mode::DollarTag,
        0 <= from <= input.len(),
    ensures
        run(s, input.subrange(from, tag_end(input, from))) == (
            LexerState {
                statement: s.statement + input.subrange(from, tag_end(input, from)),
                delimiter: s.delimiter + input.subrange(from, tag_end(input, from)),
                ..s
            },
            Seq::<EventView>::empty(),
        ),
    decreases input.len() - from,
{
    lemma_tag_end(input, from);
    let end = tag_end(input, from);
    if from < input.len() && is_tag_char(input[from]) {
        let c = input[from];
        let next = step(s, c).0;
        lemma_tag(input, from + 1, next);
        lemma_tag_end(input, from + 1);
        let tail = input.subrange(from + 1, end);
        assert(input.subrange(from, end) == seq![c] + tail);
        lemma_run_front(s, c, tail);
        assert(s.statement.push(c) + tail == s.statement + input.subrange(from, end));
        assert(s.delimiter.push(c) + tail == s.delimiter + input.subrange(from, end));
    } else {
        assert(input.subrange(from, from) == Seq::<char>::empty());
        assert(s.statement + Seq::<char>::empty() == s.statement);
        assert(s.delimiter + Seq::<char>::empty() == s.delimiter);
    }
}

/// A dollar-quoted body runs to the first place after the `$` that opens
/// it where its delimiter stands again, and is kept as it is; where there
/// is none, the script ends inside it. `open` is where the delimiter
/// stands first, `from` how far the body has been read, `text` the text of
/// the statement before the delimiter, and `s` the state at `from`.
pub proof fn lemma_dollar_body(
    input: Seq<char>,
    open: int,
    from: int,
    text: Seq<char>,
    s: LexerState,
)
    requires
        s.mode == Mode::DollarQuote,
        s.delimiter.len() >= 2,
        s.delimiter.last() == '$',
        0 <= open,
        open + s.delimiter.len() <= from <= input.len(),
        s.delimiter == input.subrange(open, open + s.delimiter.len()),
        s.statement == text + input.subrange(open, from),
        forall|k: int|
            open + 1 <= k && k + s.delimiter.len() <= from ==> !occurs_at(input, s.delimiter, k),
    ensures
        match find_from(input, s.delimiter, open + 1) {
            Some(close) => from <= close + s.delimiter.len() <= input.len() && run(
                s,
                input.subrange(from, close + s.delimiter.len()),
            ) == (
                LexerState {
                    mode: Mode::Normal,
                    statement: text + input.subrange(open, close + s.delimiter.len()),
                    delimiter: seq![],
                    ..s
                },
                Seq::<EventView>::empty(),
            ),
            None => run(s, input.skip(from)).1 == Seq::<EventView>::empty() && run(
                s,
                input.skip(from),
            ).0.mode == Mode::DollarQuote,
        },
    decreases input.len() - from,
{
    let d = s.delimiter;
    let n = d.len() as int;
    if from == input.len() {
        lemma_find_none(input, d, open + 1);
        assert(input.skip(from) == Seq::<char>::empty());
    } else {
        let c = input[from];
        let grown = s.statement.push(c);
        assert(grown == text + input.subrange(open, from + 1));
        assert(grown.subrange(grown.len() - n, grown.len() as int) == input.subrange(
            from + 1 - n,
            from + 1,
        ));
        if occurs_at(input, d, from + 1 - n) {
            assert(input.subrange(from + 1 - n, from + 1).last() == d.last());
            assert(c == '$');
            assert(d.is_suffix_of(grown));
            lemma_find_is_first(input, d, open + 1, from + 1 - n);
            assert(input.subrange(from, from + 1) == seq![c]);
            lemma_run_one(s, c);
        } else {
            assert(!d.is_suffix_of(grown));
            let next = step(s, c).0;
            assert(next.mode == Mode::DollarQuote);
            lemma_dollar_body(input, open, from + 1, text, next);
            match find_from(input, d, open + 1) {
                Some(close) => {
                    let tail = input.subrange(from + 1, close + n);
                    assert(input.subrange(from, close + n) == seq![c] + tail);
                    lemma_run_front(s, c, tail);
                },
                None => {
                    assert(input.skip(from) == seq![c] + input.skip(from + 1));
                    lemma_run_front(s, c, input.skip(from + 1));
                },
            }
        }
    }
}

/// From a state outside every region, the splitter yields for the rest of
/// the input what [`scan`] yields from the same position.
pub proof fn lemma_scan_from(input: Seq<char>, at: int, s: LexerState)
    requires
        0 <= at <= input.len(),
        s.mode == Mode::Normal,
    ensures
        rest_from(s, input.skip(at)) == scan(input, at, s.statement),
    decreases input.len() - at, 2int,
{
    if at == input.len() {
        assert(input.skip(at) == Seq::<char>::empty());
        match finish(s) {
            Ok(Some(event)) => {
                assert(with_event(Seq::<EventView>::empty(), Some(event)) == seq![event]);
            },
            _ => {},
        }
    } else {
        let c = input[at];
        if c == '-' {
            lemma_scan_dash(input, at, s);
        } else if c == '/' {
            lemma_scan_slash(input, at, s);
        } else if c == '$' {
            lemma_scan_dollar(input, at, s);
        } else if c == '\'' || c == '"' {
            lemma_scan_quote(input, at, s);
        } else {
            lemma_scan_plain(input, at, s);
        }
    }
}

/// [`lemma_scan_from`] at a `;` and at a character that opens no region.
proof fn lemma_scan_plain(input: Seq<char>, at: int, s: LexerState)
    requires
        0 <= at < input.len(),
        s.mode == Mode::Normal,
        input[at] != '-' && input[at] != '/' && input[at] != '$' && input[at] != '\'' && input[at]
            != '"',
    ensures
        rest_from(s, input.skip(at)) == scan(input, at, s.statement),
    decreases input.len() - at, 1int,
{
    let c = input[at];
    let tail = input.skip(at + 1);
    assert(input.skip(at) == seq![c] + tail);
    lemma_run_one(s, c);
    lemma_rest_split(s, seq![c], tail);
    let next = step(s, c).0;
    match step(s, c).1 {
        Some(EventView::BulkLoadStart(_)) => {
            lemma_scan_data_from(input, at + 1, next);
        },
        _ => {
            lemma_scan_from(input, at + 1, next);
            lemma_after_nothing(rest_from(next, tail));
        },
    }
}

/// [`lemma_scan_from`] at a `-`.
proof fn lemma_scan_dash(input: Seq<char>, at: int, s: LexerState)
    requires
        0 <= at < input.len(),
        s.mode == Mode::Normal,
        input[at] == '-',
    ensures
        rest_from(s, input.skip(at)) == scan(input, at, s.statement),
    decreases input.len() - at, 1int,
{
    let tail = input.skip(at + 1);
    assert(input.skip(at) == seq!['-'] + tail);
    lemma_run_one(s, '-');
    lemma_rest_split(s, seq!['-'], tail);
    let next = step(s, '-').0;
    lemma_after_nothing(rest_from(next, tail));
    if at + 1 < input.len() && input[at + 1] == '-' {
        let inside = step(next, '-').0;
        let far = input.skip(at + 2);
        assert(tail == seq!['-'] + far);
        lemma_run_one(next, '-');
        lemma_rest_split(next, seq!['-'], far);
        lemma_after_nothing(rest_from(inside, far));
        lemma_line_comment(input, at + 2, inside);
        match find_from(input, seq!['\n'], at + 2) {
            Some(end) => {
                let comment = input.subrange(at + 2, end + 1);
                let beyond = input.skip(end + 1);
                assert(far == comment + beyond);
                lemma_rest_split(inside, comment, beyond);
                lemma_scan_from(input, end + 1, run(inside, comment).0);
                lemma_after_nothing(rest_from(run(inside, comment).0, beyond));
            },
            None => {},
        }
    } else {
        let plain = LexerState { statement: s.statement.push('-'), ..s };
        lemma_same_rest(next, plain, tail);
        lemma_scan_from(input, at + 1, plain);
    }
}

/// [`lemma_scan_from`] at a `/`.
proof fn lemma_scan_slash(input: Seq<char>, at: int, s: LexerState)
    requires
        0 <= at < input.len(),
        s.mode == Mode::Normal,
        input[at] == '/',
    ensures
        rest_from(s, input.skip(at)) == scan(input, at, s.statement),
    decreases input.len() - at, 1int,
{
    let tail = input.skip(at + 1);
    assert(input.skip(at) == seq!['/'] + tail);
    lemma_run_one(s, '/');
    lemma_rest_split(s, seq!['/'], tail);
    let next = step(s, '/').0;
    lemma_after_nothing(rest_from(next, tail));
    if at + 1 < input.len() && input[at + 1] == '*' {
        let inside = step(next, '*').0;
        let far = input.skip(at + 2);
        assert(tail == seq!['*'] + far);
        lemma_run_one(next, '*');
        lemma_rest_split(next, seq!['*'], far);
        lemma_after_nothing(rest_from(inside, far));
        lemma_block_comment(input, at + 1, at + 2, inside);
        match find_from(input, seq!['*', '/'], at + 1) {
            Some(star) => {
                let comment = input.subrange(at + 2, star + 2);
                let beyond = input.skip(star + 2);
                assert(far == comment + beyond);
                lemma_rest_split(inside, comment, beyond);
                lemma_scan_from(input, star + 2, run(inside, comment).0);
                lemma_after_nothing(rest_from(run(inside, comment).0, beyond));
            },
            None => {},
        }
    } else {
        let plain = LexerState { statement: s.statement.push('/'), ..s };
        lemma_same_rest(next, plain, tail);
        lemma_scan_from(input, at + 1, plain);
    }
}

/// [`lemma_scan_from`] at a `'` or a `"`.
proof fn lemma_scan_quote(input: Seq<char>, at: int, s: LexerState)
    requires
        0 <= at < input.len(),
        s.mode == Mode::Normal,
        input[at] == '\'' || input[at] == '"',
    ensures
        rest_from(s, input.skip(at)) == scan(input, at, s.statement),
    decreases input.len() - at, 1int,
{
    let c = input[at];
    let tail = input.skip(at + 1);
    assert(input.skip(at) == seq![c] + tail);
    lemma_run_one(s, c);
    lemma_rest_split(s, seq![c], tail);
    let next = step(s, c).0;
    lemma_after_nothing(rest_from(next, tail));
    lemma_quoted_region(input, c, at + 1, next);
    match quote_end(input, c, at + 1) {
        Some(end) => {
            let body = input.subrange(at + 1, end + 1);
            let beyond = input.skip(end + 1);
            assert(tail == body + beyond);
            lemma_rest_split(next, body, beyond);
            let closed = run(next, body).0;
            let plain = LexerState { mode: Mode::Normal, ..closed };
            lemma_quote_closes(input, c, at + 1);
            lemma_same_rest(closed, plain, beyond);
            assert(s.statement.push(c) + body == s.statement + input.subrange(at, end + 1));
            lemma_scan_from(input, end + 1, plain);
            lemma_after_nothing(rest_from(closed, beyond));
        },
        None => {},
    }
}

/// [`lemma_scan_from`] at a `$`.
proof fn lemma_scan_dollar(input: Seq<char>, at: int, s: LexerState)
    requires
        0 <= at < input.len(),
        s.mode == Mode::Normal,
        input[at] == '$',
    ensures
        rest_from(s, input.skip(at)) == scan(input, at, s.statement),
    decreases input.len() - at, 1int,
{
    let tail = input.skip(at + 1);
    assert(input.skip(at) == seq!['$'] + tail);
    lemma_run_one(s, '$');
    lemma_rest_split(s, seq!['$'], tail);
    let next = step(s, '$').0;
    lemma_after_nothing(rest_from(next, tail));
    lemma_tag_end(input, at + 1);
    let tag = tag_end(input, at + 1);
    let name = input.subrange(at + 1, tag);
    assert(tail == name + input.skip(tag));
    lemma_tag(input, at + 1, next);
    lemma_rest_split(next, name, input.skip(tag));
    let named = run(next, name).0;
    lemma_after_nothing(rest_from(named, input.skip(tag)));
    assert(seq!['$'] + name == input.subrange(at, tag));
    assert(named.statement == s.statement + input.subrange(at, tag)) by {
        assert(s.statement.push('$') + name == s.statement + (seq!['$'] + name));
    }
    assert(named.delimiter == input.subrange(at, tag));
    if tag >= input.len() {
        assert(input.skip(tag) == Seq::<char>::empty());
        match finish(named) {
            Ok(Some(event)) => {
                assert(with_event(Seq::<EventView>::empty(), Some(event)) == seq![event]);
            },
            _ => {},
        }
    } else {
        let d = input[tag];
        let beyond = input.skip(tag + 1);
        assert(input.skip(tag) == seq![d] + beyond);
        lemma_run_one(named, d);
        lemma_rest_split(named, seq![d], beyond);
        let opened = step(named, d).0;
        lemma_after_nothing(rest_from(opened, beyond));
        assert(input.subrange(at, tag).push(d) == input.subrange(at, tag + 1));
        assert(opened.statement == s.statement + input.subrange(at, tag + 1)) by {
            assert((s.statement + input.subrange(at, tag)).push(d) == s.statement
                + input.subrange(at, tag).push(d));
        }
        if d == '$' {
            lemma_scan_body(input, at, tag, s.statement, opened);
        } else {
            lemma_scan_from(input, tag + 1, opened);
        }
    }
}

/// [`lemma_scan_from`] behind the delimiter that opens a dollar-quoted
/// body.
proof fn lemma_scan_body(input: Seq<char>, at: int, tag: int, text: Seq<char>, opened: LexerState)
    requires
        0 <= at < tag < input.len(),
        opened.mode == Mode::DollarQuote,
        input[tag] == '$',
        opened.delimiter == input.subrange(at, tag + 1),
        opened.statement == text + input.subrange(at, tag + 1),
    ensures
        rest_from(opened, input.skip(tag + 1)) == match find_from(
            input,
            input.subrange(at, tag + 1),
            at + 1,
        ) {
            Some(close) => scan(
                input,
                close + (tag + 1 - at),
                text + input.subrange(at, close + (tag + 1 - at)),
            ),
            None => Err(MalformedInput::UnterminatedDollarQuote),
        },
    decreases input.len() - at, 0int,
{
    let delimiter = input.subrange(at, tag + 1);
    let beyond = input.skip(tag + 1);
    assert(delimiter.last() == input[tag]);
    assert forall|k: int| at + 1 <= k && k + delimiter.len() <= tag + 1 implies !occurs_at(
        input,
        delimiter,
        k,
    ) by {}
    lemma_dollar_body(input, at, tag + 1, text, opened);
    match find_from(input, delimiter, at + 1) {
        Some(close) => {
            let end = close + delimiter.len();
            let body = input.subrange(tag + 1, end);
            assert(beyond == body + input.skip(end));
            lemma_rest_split(opened, body, input.skip(end));
            lemma_scan_from(input, end, run(opened, body).0);
            lemma_after_nothing(rest_from(run(opened, body).0, input.skip(end)));
        },
        None => {},
    }
}

/// From a state at the start of a line of bulk-load data, the splitter
/// yields for the rest of the input what [`scan_data`] yields from the same
/// position.
pub proof fn lemma_scan_data_from(input: Seq<char>, at: int, s: LexerState)
    requires
        0 <= at <= input.len(),
        s.mode == Mode::BulkLoad,
        s.line.len() == 0,
        s.statement.len() == 0,
    ensures
        rest_from(s, input.skip(at)) == scan_data(input, at),
    decreases input.len() - at, 1int,
{
    lemma_find_from(input, seq!['\n'], at);
    assert forall|k: int| occurs_at(input, seq!['\n'], k) <==> 0 <= k < input.len() && input[k]
        == '\n' by {
        lemma_occurs_one(input, '\n', k);
    }
    match find_from(input, seq!['\n'], at) {
        Some(end) => {
            let line = input.subrange(at, end);
            assert forall|i: int| 0 <= i < line.len() implies line[i] != '\n' by {
                assert(!occurs_at(input, seq!['\n'], at + i));
            }
            lemma_whole_line(s, line);
            let whole = line.push('\n');
            assert(whole == input.subrange(at, end + 1));
            assert(input.skip(at) == whole + input.skip(end + 1));
            lemma_rest_split(s, whole, input.skip(end + 1));
            let next = run(s, whole).0;
            let stripped = strip_carriage_returns(line);
            assert(s.statement == Seq::<char>::empty());
            if stripped == sentinel() {
                assert(with_event(Seq::<EventView>::empty(), Some(EventView::BulkLoadEnd)) == seq![
                    EventView::BulkLoadEnd,
                ]);
                lemma_scan_from(input, end + 1, next);
            } else if is_blank(stripped) {
                lemma_scan_data_from(input, end + 1, next);
                lemma_after_nothing(rest_from(next, input.skip(end + 1)));
            } else {
                assert(with_event(
                    Seq::<EventView>::empty(),
                    Some(EventView::BulkLoadLine(stripped)),
                ) == seq![EventView::BulkLoadLine(stripped)]);
                lemma_scan_data_from(input, end + 1, next);
            }
        },
        None => {
            let rest = input.skip(at);
            assert forall|i: int| 0 <= i < rest.len() implies rest[i] != '\n' by {
                assert(!occurs_at(input, seq!['\n'], at + i));
            }
            lemma_line_text(s, rest);
            assert(s.line + rest == rest);
            assert(rest == input.subrange(at, input.len() as int));
            if strip_carriage_returns(rest) == sentinel() {
                assert(with_event(Seq::<EventView>::empty(), Some(EventView::BulkLoadEnd)) == seq![
                    EventView::BulkLoadEnd,
                ]);
            }
        },
    }
}

/// Nothing before a result is the result.
proof fn lemma_after_nothing(rest: Result<Seq<EventView>, MalformedInput>)
    ensures
        after(Seq::<EventView>::empty(), rest) == rest,
{
    match rest {
        Ok(events) => {
            assert(Seq::<EventView>::empty() + events == events);
        },
        Err(_) => {},
    }
}

/// The character after the end of a quoted region, if there is one, is not
/// the quote character.
proof fn lemma_quote_closes(input: Seq<char>, quote: char, from: int)
    requires
        0 <= from,
        quote_end(input, quote, from) is Some,
    ensures
        quote_end(input, quote, from)->0 + 1 < input.len() ==> input[quote_end(
            input,
            quote,
            from,
        )->0 + 1] != quote,
    decreases input.len() - from,
{
    if from >= input.len() {
    } else if input[from] != quote {
        lemma_quote_closes(input, quote, from + 1);
    } else if from + 1 < input.len() && input[from + 1] == quote {
        lemma_quote_closes(input, quote, from + 2);
    }
}

/// The splitter reads a script by the lexical rules: character by
/// character it yields what [`scan`] yields region by region.
pub proof fn lemma_script_is_scan(input: Seq<char>)
    ensures
        script(input) == scan(input, 0, seq![]),
{
    assert(input.skip(0) == input);
    lemma_scan_from(input, 0, initial());
}

} // verus!
