//! Whole scripts: what a complete input yields, and what holds of it.
use crate::grammar::{lemma_script_is_scan, scan};
use crate::lexer::{
    end_line, events_view, finish, initial, is_bulk_load, run, script, sentinel, step,
    strip_carriage_returns, trailing_text, with_event, Event, EventView, Lexer, LexerState,
    MalformedInput, Mode,
};
use crate::text::{
    is_blank, is_space, lemma_blank_iff_trim_empty, lemma_leading_spaces, lemma_spaces_bounds,
    lemma_trailing_spaces, to_chars, trim, trim_start,
};
use vstd::prelude::*;

verus! {

/// The state before the character at position `at` of `input`.
pub open spec fn state_at(input: Seq<char>, at: int) -> LexerState {
    run(initial(), input.take(at)).0
}

/// The events that the first `at` characters of `input` complete.
pub open spec fn events_at(input: Seq<char>, at: int) -> Seq<EventView> {
    run(initial(), input.take(at)).1
}

/// Whether `mode` is inside a quoted region, a comment or a dollar-quoted
/// body.
pub open spec fn in_region(mode: Mode) -> bool {
    match mode {
        Mode::SingleQuote | Mode::DoubleQuote | Mode::LineComment | Mode::BlockComment
        | Mode::BlockCommentStar | Mode::DollarQuote => true,
        _ => false,
    }
}

/// Whether a `;` read in `mode` ends the statement.
pub open spec fn at_top_level(mode: Mode) -> bool {
    match mode {
        Mode::Normal | Mode::Dash | Mode::Slash | Mode::SingleQuoteEnd | Mode::DoubleQuoteEnd => true,
        _ => false,
    }
}

/// Whether the character at position `at` of `input` is a `;` that ends a
/// statement.
pub open spec fn is_terminator(input: Seq<char>, at: int) -> bool {
    input[at] == ';' && at_top_level(state_at(input, at).mode)
}

/// Whether the character at position `at` of `input` is a `;` that ends a
/// blank statement, which is not handed on.
pub open spec fn is_empty_terminator(input: Seq<char>, at: int) -> bool {
    is_terminator(input, at) && is_blank(trailing_text(state_at(input, at)))
}

/// How many of the first `n` characters of `input` end a statement.
pub open spec fn terminators(input: Seq<char>, n: nat) -> nat
    decreases n,
{
    if n == 0 {
        0
    } else {
        terminators(input, (n - 1) as nat) + if is_terminator(input, n - 1) {
            1nat
        } else {
            0nat
        }
    }
}

/// How many of the first `n` characters of `input` end a blank statement.
pub open spec fn empty_terminators(input: Seq<char>, n: nat) -> nat
    decreases n,
{
    if n == 0 {
        0
    } else {
        empty_terminators(input, (n - 1) as nat) + if is_empty_terminator(input, n - 1) {
            1nat
        } else {
            0nat
        }
    }
}

/// Whether text that is not blank follows the last `;` of `input`.
pub open spec fn has_trailing_text(input: Seq<char>) -> bool {
    !is_blank(trailing_text(state_at(input, input.len() as int)))
}

/// Whether every event of `events` is a statement.
pub open spec fn only_statements(events: Seq<EventView>) -> bool {
    forall|k: int| 0 <= k < events.len() ==> #[trigger] events[k] is Statement
}

/// The text of bulk-load data with the lines `lines`, each with its line
/// end.
pub open spec fn data_text(lines: Seq<Seq<char>>) -> Seq<char>
    decreases lines.len(),
{
    if lines.len() == 0 {
        seq![]
    } else {
        data_text(lines.drop_last()) + lines.last().push('\n')
    }
}

/// The events for the lines `lines` of bulk-load data: one for each line
/// that is not blank, without the carriage returns that end it.
pub open spec fn relayed(lines: Seq<Seq<char>>) -> Seq<EventView>
    decreases lines.len(),
{
    if lines.len() == 0 {
        seq![]
    } else {
        let line = strip_carriage_returns(lines.last());
        if is_blank(line) {
            relayed(lines.drop_last())
        } else {
            relayed(lines.drop_last()).push(EventView::BulkLoadLine(line))
        }
    }
}

/// Whether `line` can be a line of bulk-load data: it holds no line end
/// and is not the line that ends the data.
pub open spec fn is_data_line(line: Seq<char>) -> bool {
    &&& forall|i: int| 0 <= i < line.len() ==> line[i] != '\n'
    &&& strip_carriage_returns(line) != sentinel()
}

/// Reading `a` and then `b` is reading `a + b`.
pub proof fn lemma_run_concat(s: LexerState, a: Seq<char>, b: Seq<char>)
    ensures
        run(s, a + b).0 == run(run(s, a).0, b).0,
        run(s, a + b).1 == run(s, a).1 + run(run(s, a).0, b).1,
    decreases b.len(),
{
    if b.len() == 0 {
        assert(a + b == a);
        assert(run(s, a).1 + Seq::<EventView>::empty() == run(s, a).1);
    } else {
        assert((a + b).drop_last() == a + b.drop_last());
        assert((a + b).last() == b.last());
        lemma_run_concat(s, a, b.drop_last());
        let mid = run(s, a).0;
        let before = run(mid, b.drop_last());
        let event = step(before.0, b.last()).1;
        assert(with_event(run(s, a).1 + before.1, event) == run(s, a).1 + with_event(
            before.1,
            event,
        ));
    }
}

/// One more character of `input`: the state and the events after the first
/// `n` characters come from those after the first `n - 1` by [`step`].
pub proof fn lemma_run_next(input: Seq<char>, n: int)
    requires
        0 < n <= input.len(),
    ensures
        state_at(input, n) == step(state_at(input, n - 1), input[n - 1]).0,
        events_at(input, n) == with_event(
            events_at(input, n - 1),
            step(state_at(input, n - 1), input[n - 1]).1,
        ),
{
    assert(input.take(n).drop_last() == input.take(n - 1));
    assert(input.take(n).last() == input[n - 1]);
}

/// A `;` inside a quoted region, a comment or a dollar-quoted body ends no
/// statement: it completes nothing and leaves the splitter inside the
/// region; in a quoted region and in a dollar-quoted body it is kept as
/// text.
pub proof fn lemma_semicolon_inside_region(s: LexerState)
    requires
        in_region(s.mode),
    ensures
        step(s, ';').1 is None,
        in_region(step(s, ';').0.mode),
        s.mode == Mode::SingleQuote || s.mode == Mode::DoubleQuote || s.mode == Mode::DollarQuote
            ==> step(s, ';').0.mode == s.mode && step(s, ';').0.statement == s.statement.push(';'),
        s.mode == Mode::LineComment || s.mode == Mode::BlockComment || s.mode
            == Mode::BlockCommentStar ==> step(s, ';').0.statement == s.statement,
{
}

/// A script is not split at a `;` that stands inside a quoted region, a
/// comment or a dollar-quoted body: the events after it are those before
/// it.
pub proof fn lemma_no_split_inside_region(input: Seq<char>, at: int)
    requires
        0 <= at < input.len(),
        input[at] == ';',
        in_region(state_at(input, at).mode),
    ensures
        events_at(input, at + 1) == events_at(input, at),
        in_region(state_at(input, at + 1).mode),
{
    lemma_run_next(input, at + 1);
    lemma_semicolon_inside_region(state_at(input, at));
}

/// Inside a comment nothing is kept: whatever the character, the statement
/// stays as it is and nothing is completed.
pub proof fn lemma_comment_is_dropped(s: LexerState, c: char)
    requires
        s.mode == Mode::LineComment || s.mode == Mode::BlockComment || s.mode
            == Mode::BlockCommentStar,
    ensures
        step(s, c).0.statement == s.statement,
        step(s, c).1 is None,
{
}

/// Inside a quoted region and inside a dollar-quoted body every character
/// is kept as it is, and nothing is completed.
pub proof fn lemma_quoted_text_is_kept(s: LexerState, c: char)
    requires
        s.mode == Mode::SingleQuote || s.mode == Mode::DoubleQuote || s.mode == Mode::DollarQuote,
    ensures
        step(s, c).0.statement == s.statement.push(c),
        step(s, c).1 is None,
{
}

/// The character that a region must see to end: the quote character of a
/// quoted region, the line end of a line comment, the `$` of a
/// dollar-quoted body.
pub open spec fn closing_char(mode: Mode) -> char {
    match mode {
        Mode::SingleQuote => '\'',
        Mode::DoubleQuote => '"',
        Mode::LineComment => '\n',
        _ => '$',
    }
}

/// Text without the character that ends the region leaves the splitter
/// inside the region and completes nothing, whatever else it holds, `;`
/// and the marks of other regions included. In a quoted region and in a
/// dollar-quoted body it is kept as it is; in a line comment it is
/// dropped.
pub proof fn lemma_inside_region(s: LexerState, text: Seq<char>)
    requires
        s.mode == Mode::SingleQuote || s.mode == Mode::DoubleQuote || s.mode == Mode::LineComment
            || s.mode == Mode::DollarQuote,
        forall|i: int| 0 <= i < text.len() ==> text[i] != closing_char(s.mode),
    ensures
        run(s, text).1 == Seq::<EventView>::empty(),
        run(s, text).0 == (LexerState {
            statement: if s.mode == Mode::LineComment {
                s.statement
            } else {
                s.statement + text
            },
            ..s
        }),
    decreases text.len(),
{
    if text.len() == 0 {
        assert(s.statement + text == s.statement);
    } else {
        lemma_inside_region(s, text.drop_last());
        assert(s.statement + text == (s.statement + text.drop_last()).push(text.last()));
    }
}

/// A doubled quote character inside the region that it delimits does not
/// close the region: after both the splitter is inside the same region,
/// both are kept as text, and nothing is completed.
pub proof fn lemma_doubled_quote_stays(s: LexerState, quote: char)
    requires
        (s.mode == Mode::SingleQuote && quote == '\'') || (s.mode == Mode::DoubleQuote && quote
            == '"'),
    ensures
        run(s, seq![quote, quote]).0 == (LexerState {
            statement: s.statement.push(quote).push(quote),
            ..s
        }),
        run(s, seq![quote, quote]).1 == Seq::<EventView>::empty(),
{
    let both = seq![quote, quote];
    let one = seq![quote];
    assert(both.drop_last() == one);
    assert(one.drop_last() == Seq::<char>::empty());
    assert(one.last() == quote && both.last() == quote);
    assert(run(s, one.drop_last()) == (s, Seq::<EventView>::empty()));
    assert(run(s, one) == (step(s, quote).0, Seq::<EventView>::empty()));
}

/// Inside bulk-load data, text without a line end is added to the current
/// line and completes nothing.
pub proof fn lemma_line_text(s: LexerState, text: Seq<char>)
    requires
        s.mode == Mode::BulkLoad,
        forall|i: int| 0 <= i < text.len() ==> text[i] != '\n',
    ensures
        run(s, text).0 == (LexerState { line: s.line + text, ..s }),
        run(s, text).1 == Seq::<EventView>::empty(),
    decreases text.len(),
{
    if text.len() == 0 {
        assert(s.line + text == s.line);
    } else {
        lemma_line_text(s, text.drop_last());
        assert(s.line + text == (s.line + text.drop_last()).push(text.last()));
    }
}

/// Inside bulk-load data, a whole line with its line end is handed on if it
/// is not blank, ends the data if it is the line that does so, and is
/// dropped otherwise: see [`end_line`].
pub proof fn lemma_whole_line(s: LexerState, line: Seq<char>)
    requires
        s.mode == Mode::BulkLoad,
        s.line.len() == 0,
        forall|i: int| 0 <= i < line.len() ==> line[i] != '\n',
    ensures
        run(s, line.push('\n')).0 == end_line(LexerState { line, ..s }).0,
        run(s, line.push('\n')).1 == with_event(seq![], end_line(LexerState { line, ..s }).1),
{
    lemma_line_text(s, line);
    assert(line.push('\n').drop_last() == line);
    assert(s.line + line == line);
}

/// Bulk-load data is relayed line by line: the lines of `lines` that are
/// not blank are handed on in order, then the line that ends the data is
/// reported, and the splitter is outside every region again.
pub proof fn lemma_bulk_load_relay(s: LexerState, lines: Seq<Seq<char>>)
    requires
        s.mode == Mode::BulkLoad,
        s.line.len() == 0,
        forall|i: int| 0 <= i < lines.len() ==> is_data_line(#[trigger] lines[i]),
    ensures
        run(s, data_text(lines) + sentinel().push('\n')).0 == (LexerState {
            mode: Mode::Normal,
            line: seq![],
            ..s
        }),
        run(s, data_text(lines) + sentinel().push('\n')).1 == relayed(lines).push(
            EventView::BulkLoadEnd,
        ),
{
    lemma_data_lines(s, lines);
    lemma_run_concat(s, data_text(lines), sentinel().push('\n'));
    let mid = run(s, data_text(lines)).0;
    assert(mid == LexerState { line: seq![], ..s });
    assert(sentinel()[0] == '\\' && sentinel()[1] == '.');
    lemma_whole_line(mid, sentinel());
    assert(strip_carriage_returns(sentinel()) == sentinel());
    assert(relayed(lines) + seq![EventView::BulkLoadEnd] == relayed(lines).push(
        EventView::BulkLoadEnd,
    ));
}

/// A bulk-load statement with its data: the `;` that ends the statement
/// opens the bulk load, the lines of `lines` that are not blank are handed
/// on in order, the line that ends the data closes the bulk load, and the
/// splitter is outside every region again, with no text of a statement
/// left. What stands between the `;` and the end of its line is the first
/// of the lines.
pub proof fn lemma_bulk_load_statement(s: LexerState, lines: Seq<Seq<char>>)
    requires
        at_top_level(s.mode),
        trim(trailing_text(s)).len() > 0,
        is_bulk_load(trim(trailing_text(s))),
        forall|i: int| 0 <= i < lines.len() ==> is_data_line(#[trigger] lines[i]),
    ensures
        run(s, seq![';'] + (data_text(lines) + sentinel().push('\n'))).0 == (LexerState {
            mode: Mode::Normal,
            statement: seq![],
            line: seq![],
            ..s
        }),
        run(s, seq![';'] + (data_text(lines) + sentinel().push('\n'))).1 == seq![
            EventView::BulkLoadStart(trim(trailing_text(s))),
        ] + relayed(lines).push(EventView::BulkLoadEnd),
{
    let start = seq![';'];
    let data = data_text(lines) + sentinel().push('\n');
    assert(start.drop_last() == Seq::<char>::empty());
    assert(start.last() == ';');
    assert(run(s, start.drop_last()) == (s, Seq::<EventView>::empty()));
    let opened = step(s, ';').0;
    assert(run(s, start).0 == opened);
    assert(run(s, start).1 == seq![EventView::BulkLoadStart(trim(trailing_text(s)))]);
    lemma_run_concat(s, start, data);
    lemma_bulk_load_relay(opened, lines);
}

/// The lines of bulk-load data before the line that ends it: those that are
/// not blank are handed on in order, and the splitter stays inside the
/// data.
pub proof fn lemma_data_lines(s: LexerState, lines: Seq<Seq<char>>)
    requires
        s.mode == Mode::BulkLoad,
        s.line.len() == 0,
        forall|i: int| 0 <= i < lines.len() ==> is_data_line(#[trigger] lines[i]),
    ensures
        run(s, data_text(lines)).0 == (LexerState { line: seq![], ..s }),
        run(s, data_text(lines)).1 == relayed(lines),
    decreases lines.len(),
{
    if lines.len() == 0 {
        assert(s.line == Seq::<char>::empty());
    } else {
        let front = lines.drop_last();
        let line = lines.last();
        assert forall|i: int| 0 <= i < front.len() implies is_data_line(#[trigger] front[i]) by {
            assert(front[i] == lines[i]);
        }
        lemma_data_lines(s, front);
        lemma_run_concat(s, data_text(front), line.push('\n'));
        let mid = run(s, data_text(front)).0;
        assert(is_data_line(line));
        lemma_whole_line(mid, line);
        let stripped = strip_carriage_returns(line);
        if is_blank(stripped) {
            assert(relayed(front) + Seq::<EventView>::empty() == relayed(front));
        } else {
            assert(relayed(front) + seq![EventView::BulkLoadLine(stripped)] == relayed(front).push(
                EventView::BulkLoadLine(stripped),
            ));
        }
    }
}

/// Where no line of bulk-load data is blank, every line is handed on.
pub proof fn lemma_relayed_all(lines: Seq<Seq<char>>)
    requires
        forall|i: int|
            0 <= i < lines.len() ==> !is_blank(strip_carriage_returns(#[trigger] lines[i])),
    ensures
        relayed(lines).len() == lines.len(),
    decreases lines.len(),
{
    if lines.len() > 0 {
        let front = lines.drop_last();
        assert forall|i: int| 0 <= i < front.len() implies !is_blank(
            strip_carriage_returns(#[trigger] front[i]),
        ) by {
            assert(front[i] == lines[i]);
        }
        lemma_relayed_all(front);
    }
}

/// A script that ends inside a dollar-quoted body, a comment, a quoted
/// region or bulk-load data is malformed, whatever it holds before.
pub proof fn lemma_open_region_is_malformed(input: Seq<char>)
    requires
        ({
            let end = state_at(input, input.len() as int);
            in_region(end.mode) || (end.mode == Mode::BulkLoad && strip_carriage_returns(end.line)
                != sentinel())
        }),
    ensures
        script(input) is Err,
{
    assert(input.take(input.len() as int) == input);
}

/// While no event starts bulk-load data, events come from the `;` that end
/// a statement alone: one from each that ends a statement which is not
/// blank.
pub proof fn lemma_events_by_terminators(input: Seq<char>, n: nat)
    requires
        n <= input.len(),
        only_statements(events_at(input, n as int)),
    ensures
        state_at(input, n as int).mode != Mode::BulkLoad,
        events_at(input, n as int).len() + empty_terminators(input, n) == terminators(input, n),
    decreases n,
{
    if n == 0 {
        assert(input.take(0).len() == 0);
    } else {
        lemma_run_next(input, n as int);
        let before = state_at(input, n - 1);
        let events = events_at(input, n - 1);
        let c = input[n - 1];
        let event = step(before, c).1;
        assert(only_statements(events)) by {
            assert forall|k: int| 0 <= k < events.len() implies #[trigger] events[k]
                is Statement by {
                assert(events_at(input, n as int)[k] == events[k]);
            }
        }
        lemma_events_by_terminators(input, (n - 1) as nat);
        if event is Some {
            assert(events_at(input, n as int)[events.len() as int] == event->0);
            assert(event->0 is Statement);
        }
        lemma_blank_iff_trim_empty(trailing_text(before));
    }
}

/// The number of statements of a well-formed script without bulk-load
/// statements: the number of `;` outside every region that end a statement
/// which is not blank, and one more where text that is not blank follows the
/// last of them.
pub proof fn lemma_statement_count(input: Seq<char>)
    requires
        script(input) is Ok,
        only_statements(script(input)->Ok_0),
    ensures
        script(input)->Ok_0.len() + empty_terminators(input, input.len()) == terminators(
            input,
            input.len(),
        ) + if has_trailing_text(input) {
            1nat
        } else {
            0nat
        },
{
    let n = input.len();
    assert(input.take(n as int) == input);
    let end = state_at(input, n as int);
    let events = events_at(input, n as int);
    let last = finish(end)->Ok_0;
    assert(script(input)->Ok_0 == with_event(events, last));
    assert(only_statements(events)) by {
        assert forall|k: int| 0 <= k < events.len() implies #[trigger] events[k] is Statement by {
            assert(script(input)->Ok_0[k] == events[k]);
        }
    }
    lemma_events_by_terminators(input, n);
    lemma_blank_iff_trim_empty(trailing_text(end));
}

/// Whether `text` is what the splitter hands on as a statement: it is not
/// empty and has no white space at either end.
pub open spec fn is_trimmed(text: Seq<char>) -> bool {
    text.len() > 0 && !is_space(text[0]) && !is_space(text.last())
}

/// Whether `line` is what the splitter hands on as a line of bulk-load
/// data: it is not blank, is not the line that ends the data, holds no line
/// end and does not end with a carriage return.
pub open spec fn is_payload_line(line: Seq<char>) -> bool {
    &&& !is_blank(line)
    &&& line != sentinel()
    &&& forall|i: int| 0 <= i < line.len() ==> line[i] != '\n'
    &&& line.len() > 0 ==> line.last() != '\r'
}

/// Whether `event` is one that the splitter hands on.
pub open spec fn is_sound(event: EventView) -> bool {
    match event {
        EventView::Statement(text) => is_trimmed(text) && !is_bulk_load(text),
        EventView::BulkLoadStart(text) => is_trimmed(text) && is_bulk_load(text),
        EventView::BulkLoadLine(line) => is_payload_line(line),
        EventView::BulkLoadEnd => true,
    }
}

/// Whether the bulk-load channel is open after `events`: the last
/// bulk-load statement among them has not been followed by the end of its
/// data.
pub open spec fn channel_open(events: Seq<EventView>) -> bool
    decreases events.len(),
{
    if events.len() == 0 {
        false
    } else {
        match events.last() {
            EventView::BulkLoadStart(_) => true,
            EventView::BulkLoadEnd => false,
            _ => channel_open(events.drop_last()),
        }
    }
}

/// Whether bulk loads and statements take turns in `events`: data lines
/// and the end of the data come while the channel is open, statements and
/// bulk-load statements while it is not.
pub open spec fn in_turn(events: Seq<EventView>) -> bool
    decreases events.len(),
{
    if events.len() == 0 {
        true
    } else {
        in_turn(events.drop_last()) && match events.last() {
            EventView::Statement(_) | EventView::BulkLoadStart(_) => !channel_open(
                events.drop_last(),
            ),
            EventView::BulkLoadLine(_) | EventView::BulkLoadEnd => channel_open(
                events.drop_last(),
            ),
        }
    }
}

/// What holds of every state that the splitter reaches: the line buffer
/// holds no line end, and is empty outside bulk-load data; the statement is
/// empty inside it.
pub open spec fn is_reachable_shape(s: LexerState) -> bool {
    &&& forall|i: int| 0 <= i < s.line.len() ==> s.line[i] != '\n'
    &&& s.mode != Mode::BulkLoad ==> s.line.len() == 0
    &&& s.mode == Mode::BulkLoad ==> s.statement.len() == 0
}

/// What is left of a text that is not blank when it is trimmed is not
/// empty and has no white space at either end; trimming it again changes
/// nothing.
pub proof fn lemma_trim_is_trimmed(text: Seq<char>)
    requires
        trim(text).len() > 0,
    ensures
        is_trimmed(trim(text)),
        trim(trim(text)) == trim(text),
{
    lemma_spaces_bounds(text);
    let front = trim_start(text);
    lemma_spaces_bounds(front);
    let t = trim(text);
    assert(t[0] == front[0]);
    assert(front[0] == text[crate::text::leading_spaces(text) as int]);
    assert(t.last() == front[front.len() - crate::text::trailing_spaces(front) - 1]);
    lemma_leading_spaces(t, 0);
    lemma_trailing_spaces(t, 0);
    assert(trim_start(t) == t);
    assert(trim(t) == t);
}

/// What is left of a line when the carriage returns that end it are taken
/// off: a front part of the line that does not end with one.
pub proof fn lemma_strip_carriage_returns(line: Seq<char>)
    ensures
        strip_carriage_returns(line).len() <= line.len(),
        strip_carriage_returns(line) == line.take(strip_carriage_returns(line).len() as int),
        strip_carriage_returns(line).len() > 0 ==> strip_carriage_returns(line).last() != '\r',
    decreases line.len(),
{
    if line.len() > 0 && line.last() == '\r' {
        lemma_strip_carriage_returns(line.drop_last());
        let rest = strip_carriage_returns(line.drop_last());
        assert(line.drop_last().take(rest.len() as int) == line.take(rest.len() as int));
    } else {
        assert(line.take(line.len() as int) == line);
    }
}

/// One character keeps the shape of the state, and what it completes is
/// sound and comes in turn: a line of data or the end of the data exactly
/// where the splitter was inside bulk-load data, and the splitter is inside
/// bulk-load data afterwards exactly where the channel is open.
pub proof fn lemma_step_sound(s: LexerState, c: char)
    requires
        is_reachable_shape(s),
    ensures
        is_reachable_shape(step(s, c).0),
        match step(s, c).1 {
            Some(EventView::Statement(text)) => s.mode != Mode::BulkLoad && step(s, c).0.mode
                != Mode::BulkLoad && is_sound(EventView::Statement(text)),
            Some(EventView::BulkLoadStart(text)) => s.mode != Mode::BulkLoad && step(s, c).0.mode
                == Mode::BulkLoad && is_sound(EventView::BulkLoadStart(text)),
            Some(EventView::BulkLoadLine(line)) => s.mode == Mode::BulkLoad && step(s, c).0.mode
                == Mode::BulkLoad && is_sound(EventView::BulkLoadLine(line)),
            Some(EventView::BulkLoadEnd) => s.mode == Mode::BulkLoad && step(s, c).0.mode
                != Mode::BulkLoad,
            None => (s.mode == Mode::BulkLoad) == (step(s, c).0.mode == Mode::BulkLoad),
        },
{
    if s.mode == Mode::BulkLoad {
        if c == '\n' {
            lemma_strip_carriage_returns(s.line);
        }
    } else {
        let pending = if s.mode == Mode::Dash {
            s.statement.push('-')
        } else if s.mode == Mode::Slash {
            s.statement.push('/')
        } else {
            s.statement
        };
        if trim(pending).len() > 0 {
            lemma_trim_is_trimmed(pending);
        }
    }
}

/// What the splitter hands on is sound and comes in turn, whatever the
/// input: every statement is trimmed and not empty, every line of data is a
/// line that is not blank, and data lines come between a bulk-load
/// statement and the end of its data, where no statement comes.
pub proof fn lemma_events_sound(input: Seq<char>, n: nat)
    requires
        n <= input.len(),
    ensures
        is_reachable_shape(state_at(input, n as int)),
        in_turn(events_at(input, n as int)),
        channel_open(events_at(input, n as int)) == (state_at(input, n as int).mode
            == Mode::BulkLoad),
        forall|k: int|
            0 <= k < events_at(input, n as int).len() ==> is_sound(
                #[trigger] events_at(input, n as int)[k],
            ),
    decreases n,
{
    if n == 0 {
        assert(input.take(0).len() == 0);
    } else {
        lemma_run_next(input, n as int);
        lemma_events_sound(input, (n - 1) as nat);
        let before = state_at(input, n - 1);
        let events = events_at(input, n - 1);
        let event = step(before, input[n - 1]).1;
        lemma_step_sound(before, input[n - 1]);
        let after = events_at(input, n as int);
        if event is Some {
            assert(after.drop_last() == events);
            assert forall|k: int| 0 <= k < after.len() implies is_sound(#[trigger] after[k]) by {
                if k < events.len() {
                    assert(after[k] == events[k]);
                }
            }
        }
    }
}

/// The events of a well-formed script are sound, come in turn, and leave
/// no bulk-load channel open.
pub proof fn lemma_script_sound(input: Seq<char>)
    requires
        script(input) is Ok,
    ensures
        in_turn(script(input)->Ok_0),
        !channel_open(script(input)->Ok_0),
        forall|k: int|
            0 <= k < script(input)->Ok_0.len() ==> is_sound(#[trigger] script(input)->Ok_0[k]),
{
    let n = input.len();
    assert(input.take(n as int) == input);
    lemma_events_sound(input, n);
    let end = state_at(input, n as int);
    let events = events_at(input, n as int);
    let last = finish(end)->Ok_0;
    let all = script(input)->Ok_0;
    assert(all == with_event(events, last));
    if last is Some {
        assert(all.drop_last() == events);
        if end.mode != Mode::BulkLoad {
            lemma_trim_is_trimmed(trailing_text(end));
        }
        assert forall|k: int| 0 <= k < all.len() implies is_sound(#[trigger] all[k]) by {
            if k < events.len() {
                assert(all[k] == events[k]);
            }
        }
    }
}

/// Whether the character at position `at` of `input` is a `;` outside
/// every quoted region, comment, dollar-quoted body and bulk load.
pub open spec fn is_semicolon_outside(input: Seq<char>, at: int) -> bool {
    input[at] == ';' && !in_region(state_at(input, at).mode) && state_at(input, at).mode
        != Mode::BulkLoad
}

/// How many of the first `n` characters of `input` are a `;` outside every
/// region.
pub open spec fn semicolons_outside(input: Seq<char>, n: nat) -> nat
    decreases n,
{
    if n == 0 {
        0
    } else {
        semicolons_outside(input, (n - 1) as nat) + if is_semicolon_outside(input, n - 1) {
            1nat
        } else {
            0nat
        }
    }
}

/// Whether the character at position `at` of `input` is a `;` that
/// follows a `$` and a tag at once: it ends no statement, being the
/// character that shows the `$` to open no dollar quote.
pub open spec fn is_semicolon_after_tag(input: Seq<char>, at: int) -> bool {
    input[at] == ';' && state_at(input, at).mode == Mode::DollarTag
}

/// Where every `;` outside the regions ends a statement that is not blank,
/// each such `;` ends a statement.
proof fn lemma_semicolons_are_terminators(input: Seq<char>, n: nat)
    requires
        n <= input.len(),
        forall|at: int|
            0 <= at < input.len() ==> !is_semicolon_after_tag(input, at) && !is_empty_terminator(
                input,
                at,
            ),
    ensures
        semicolons_outside(input, n) == terminators(input, n),
        empty_terminators(input, n) == 0,
    decreases n,
{
    if n > 0 {
        lemma_semicolons_are_terminators(input, (n - 1) as nat);
        assert(!is_semicolon_after_tag(input, n - 1) && !is_empty_terminator(input, n - 1));
    }
}

/// A well-formed script without bulk-load statements has as many
/// statements as it has `;` outside every quoted region, comment and
/// dollar-quoted body, and one more where text that is not blank follows
/// the last of them; provided that each such `;` has text before it that
/// is not blank, back to the `;` before, and that none follows a `$` and a
/// tag at once.
pub proof fn lemma_statement_count_by_semicolons(input: Seq<char>)
    requires
        script(input) is Ok,
        only_statements(script(input)->Ok_0),
        forall|at: int|
            0 <= at < input.len() ==> !is_semicolon_after_tag(input, at) && !is_empty_terminator(
                input,
                at,
            ),
    ensures
        script(input)->Ok_0.len() == semicolons_outside(input, input.len()) + if has_trailing_text(
            input,
        ) {
            1nat
        } else {
            0nat
        },
{
    lemma_statement_count(input);
    lemma_semicolons_are_terminators(input, input.len());
}

/// Splits a whole script: its events in order, or why it is malformed.
/// What the splitter yields character by character is what the lexical
/// rules yield region by region.
pub fn split_script(input: &str) -> (r: Result<Vec<Event>, MalformedInput>)
    ensures
        match r {
            Ok(events) => script(input@) == Ok::<Seq<EventView>, MalformedInput>(
                events_view(events@),
            ),
            Err(e) => script(input@) == Err::<Seq<EventView>, MalformedInput>(e),
        },
        script(input@) == scan(input@, 0, seq![]),
{
    proof {
        lemma_script_is_scan(input@);
    }
    let chars = to_chars(input);
    let mut lexer = Lexer::new();
    let mut events: Vec<Event> = Vec::new();
    let mut i: usize = 0;
    assert(chars@.take(0).len() == 0);
    assert(events_view(events@) == Seq::<EventView>::empty());
    while i < chars.len()
        invariant
            i <= chars.len(),
            lexer@ == state_at(chars@, i as int),
            events_view(events@) == events_at(chars@, i as int),
        decreases chars.len() - i,
    {
        let event = lexer.feed(chars[i]);
        proof {
            lemma_run_next(chars@, i + 1);
        }
        let ghost before = events@;
        match event {
            Some(e) => {
                events.push(e);
                assert(events_view(events@) == events_view(before).push(e@));
            },
            None => {},
        }
        i += 1;
    }
    assert(chars@.take(chars.len() as int) == chars@);
    let ghost before = events@;
    match lexer.finish() {
        Ok(Some(e)) => {
            events.push(e);
            assert(events_view(events@) == events_view(before).push(e@));
            Ok(events)
        },
        Ok(None) => Ok(events),
        Err(e) => Err(e),
    }
}

} // verus!
