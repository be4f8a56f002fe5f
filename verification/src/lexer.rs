//! The statement splitter: a character-at-a-time state machine that cuts a
//! script into statements and bulk-load payload lines.
//!
//! [`step`] is the machine; [`Lexer`] runs it on real characters, one call
//! of [`Lexer::feed`] per character, so that a script of any size is split
//! without being held in memory. [`run`] and [`script`] say what a whole
//! input yields.
use crate::text::{
    blank, ends_with, find, find_first, is_blank, lowercase_of, slice_of, starts_with, to_chars,
    to_lowercase, to_text, trim, trimmed,
};
use vstd::prelude::*;

verus! {

/// What the splitter is inside of.
///
/// `Dash` and `Slash` hold back a `-` or `/` that opens a comment if the
/// next character agrees. `SingleQuoteEnd` and `DoubleQuoteEnd` follow a
/// quote character inside a quoted region: it closes the region unless the
/// next character doubles it. `DollarTag` follows a `$` that may open a
/// dollar quote.
#[derive(Clone, Copy, Debug, PartialEq, Eq, Structural)]
pub enum Mode {
    Normal,
    Dash,
    Slash,
    LineComment,
    BlockComment,
    BlockCommentStar,
    DollarTag,
    DollarQuote,
    SingleQuote,
    SingleQuoteEnd,
    DoubleQuote,
    DoubleQuoteEnd,
    BulkLoad,
}

/// What the splitter hands to the engine.
#[derive(Clone, Debug, PartialEq, Eq)]
pub enum Event {
    /// A complete statement, trimmed and not empty.
    Statement(String),
    /// A complete bulk-load statement: the lines that follow are its data.
    BulkLoadStart(String),
    /// One line of bulk-load data, without its line end.
    BulkLoadLine(String),
    /// The line that ends the bulk-load data.
    BulkLoadEnd,
}

/// An [`Event`] as specifications see it.
#[verifier::ext_equal]
pub enum EventView {
    Statement(Seq<char>),
    BulkLoadStart(Seq<char>),
    BulkLoadLine(Seq<char>),
    BulkLoadEnd,
}

impl View for Event {
    type V = EventView;

    open spec fn view(&self) -> EventView {
        match self {
            Event::Statement(text) => EventView::Statement(text@),
            Event::BulkLoadStart(text) => EventView::BulkLoadStart(text@),
            Event::BulkLoadLine(text) => EventView::BulkLoadLine(text@),
            Event::BulkLoadEnd => EventView::BulkLoadEnd,
        }
    }
}

/// Why a script cannot be split: where its text stops.
#[derive(Clone, Copy, Debug, PartialEq, Eq, Structural)]
pub enum MalformedInput {
    /// Inside a single-quoted or double-quoted region.
    UnterminatedQuote,
    /// Inside a line comment or a block comment.
    UnterminatedComment,
    /// Inside a dollar-quoted body.
    UnterminatedDollarQuote,
    /// Inside bulk-load data, before the line that ends it.
    UnterminatedBulkLoad,
    /// After a bulk-load statement that no `;` and no data follow.
    MissingBulkData,
}

/// The state of the splitter.
#[verifier::ext_equal]
pub struct LexerState {
    pub mode: Mode,
    /// The text of the statement so far.
    pub statement: Seq<char>,
    /// In `DollarTag`, the `$` and the tag so far; in `DollarQuote`, the
    /// whole delimiter.
    pub delimiter: Seq<char>,
    /// In `BulkLoad`, the current line so far.
    pub line: Seq<char>,
}

/// The state before the first character.
pub open spec fn initial() -> LexerState {
    LexerState { mode: Mode::Normal, statement: seq![], delimiter: seq![], line: seq![] }
}

/// Whether `c` may stand in the tag of a dollar quote.
pub open spec fn is_tag_char(c: char) -> bool {
    ||| 'a' <= c <= 'z'
    ||| 'A' <= c <= 'Z'
    ||| '0' <= c <= '9'
    ||| c == '_'
}

/// The line that ends bulk-load data.
pub open spec fn sentinel() -> Seq<char> {
    seq!['\\', '.']
}

/// `line` without the carriage returns it ends with.
pub open spec fn strip_carriage_returns(line: Seq<char>) -> Seq<char>
    decreases line.len(),
{
    if line.len() > 0 && line.last() == '\r' {
        strip_carriage_returns(line.drop_last())
    } else {
        line
    }
}

/// Whether the lower case form `lowered` of a statement is that of a
/// bulk-load statement: it starts with the verb and names standard input
/// as its source.
pub open spec fn is_bulk_load_text(lowered: Seq<char>) -> bool {
    "copy"@.is_prefix_of(lowered) && find(lowered, "from stdin"@) is Some
}

/// Whether `statement` is a bulk-load statement.
pub open spec fn is_bulk_load(statement: Seq<char>) -> bool {
    is_bulk_load_text(lowercase_of(statement))
}

/// A `;` outside every region: the statement so far is complete.
pub open spec fn terminate(s: LexerState) -> (LexerState, Option<EventView>) {
    let text = trim(s.statement);
    if text.len() == 0 {
        (LexerState { mode: Mode::Normal, statement: seq![], ..s }, None)
    } else if is_bulk_load(text) {
        (
            LexerState { mode: Mode::BulkLoad, statement: seq![], line: seq![], ..s },
            Some(EventView::BulkLoadStart(text)),
        )
    } else {
        (LexerState { mode: Mode::Normal, statement: seq![], ..s }, Some(EventView::Statement(text)))
    }
}

/// One character outside every region.
pub open spec fn step_normal(s: LexerState, c: char) -> (LexerState, Option<EventView>) {
    if c == '-' {
        (LexerState { mode: Mode::Dash, ..s }, None)
    } else if c == '/' {
        (LexerState { mode: Mode::Slash, ..s }, None)
    } else if c == '$' {
        (
            LexerState {
                mode: Mode::DollarTag,
                statement: s.statement.push(c),
                delimiter: seq!['$'],
                ..s
            },
            None,
        )
    } else if c == '\'' {
        (LexerState { mode: Mode::SingleQuote, statement: s.statement.push(c), ..s }, None)
    } else if c == '"' {
        (LexerState { mode: Mode::DoubleQuote, statement: s.statement.push(c), ..s }, None)
    } else if c == ';' {
        terminate(LexerState { mode: Mode::Normal, ..s })
    } else {
        (LexerState { mode: Mode::Normal, statement: s.statement.push(c), ..s }, None)
    }
}

/// The end of a line of bulk-load data.
pub open spec fn end_line(s: LexerState) -> (LexerState, Option<EventView>) {
    let line = strip_carriage_returns(s.line);
    if line == sentinel() {
        (LexerState { mode: Mode::Normal, line: seq![], ..s }, Some(EventView::BulkLoadEnd))
    } else if is_blank(line) {
        (LexerState { line: seq![], ..s }, None)
    } else {
        (LexerState { line: seq![], ..s }, Some(EventView::BulkLoadLine(line)))
    }
}

/// The machine: the state after the character `c`, and what `c` completes.
///
/// A comment leaves nothing in the statement, not even its line end. Every
/// other character is kept as it is. A character that does not go on with
/// what `Dash`, `Slash`, `SingleQuoteEnd` or `DoubleQuoteEnd` wait for is
/// read again outside every region; one that ends a `DollarTag` without
/// opening a dollar quote is plain text and is not read again. The `*` that
/// opens a block comment may also be the `*` that closes it.
pub open spec fn step(s: LexerState, c: char) -> (LexerState, Option<EventView>) {
    match s.mode {
        Mode::Normal => step_normal(s, c),
        Mode::Dash => if c == '-' {
            (LexerState { mode: Mode::LineComment, ..s }, None)
        } else {
            step_normal(LexerState { mode: Mode::Normal, statement: s.statement.push('-'), ..s }, c)
        },
        Mode::Slash => if c == '*' {
            (LexerState { mode: Mode::BlockCommentStar, ..s }, None)
        } else {
            step_normal(LexerState { mode: Mode::Normal, statement: s.statement.push('/'), ..s }, c)
        },
        Mode::LineComment => if c == '\n' {
            (LexerState { mode: Mode::Normal, ..s }, None)
        } else {
            (s, None)
        },
        Mode::BlockComment => if c == '*' {
            (LexerState { mode: Mode::BlockCommentStar, ..s }, None)
        } else {
            (s, None)
        },
        Mode::BlockCommentStar => if c == '/' {
            (LexerState { mode: Mode::Normal, ..s }, None)
        } else if c == '*' {
            (s, None)
        } else {
            (LexerState { mode: Mode::BlockComment, ..s }, None)
        },
        Mode::DollarTag => if c == '$' {
            (
                LexerState {
                    mode: Mode::DollarQuote,
                    statement: s.statement.push(c),
                    delimiter: s.delimiter.push(c),
                    ..s
                },
                None,
            )
        } else if is_tag_char(c) {
            (
                LexerState {
                    statement: s.statement.push(c),
                    delimiter: s.delimiter.push(c),
                    ..s
                },
                None,
            )
        } else {
            (
                LexerState {
                    mode: Mode::Normal,
                    statement: s.statement.push(c),
                    delimiter: seq![],
                    ..s
                },
                None,
            )
        },
        Mode::DollarQuote => {
            let statement = s.statement.push(c);
            if c == '$' && s.delimiter.is_suffix_of(statement) {
                (LexerState { mode: Mode::Normal, statement, delimiter: seq![], ..s }, None)
            } else {
                (LexerState { statement, ..s }, None)
            }
        },
        Mode::SingleQuote => if c == '\'' {
            (LexerState { mode: Mode::SingleQuoteEnd, statement: s.statement.push(c), ..s }, None)
        } else {
            (LexerState { statement: s.statement.push(c), ..s }, None)
        },
        Mode::SingleQuoteEnd => if c == '\'' {
            (LexerState { mode: Mode::SingleQuote, statement: s.statement.push(c), ..s }, None)
        } else {
            step_normal(LexerState { mode: Mode::Normal, ..s }, c)
        },
        Mode::DoubleQuote => if c == '"' {
            (LexerState { mode: Mode::DoubleQuoteEnd, statement: s.statement.push(c), ..s }, None)
        } else {
            (LexerState { statement: s.statement.push(c), ..s }, None)
        },
        Mode::DoubleQuoteEnd => if c == '"' {
            (LexerState { mode: Mode::DoubleQuote, statement: s.statement.push(c), ..s }, None)
        } else {
            step_normal(LexerState { mode: Mode::Normal, ..s }, c)
        },
        Mode::BulkLoad => if c == '\n' {
            end_line(s)
        } else {
            (LexerState { line: s.line.push(c), ..s }, None)
        },
    }
}

/// The statement text at the end of the input, where the input ends
/// outside every region: what `Dash` or `Slash` held back belongs to it.
pub open spec fn trailing_text(s: LexerState) -> Seq<char> {
    match s.mode {
        Mode::Dash => s.statement.push('-'),
        Mode::Slash => s.statement.push('/'),
        _ => s.statement,
    }
}

/// The end of the input: the last event, or why the input is malformed.
///
/// The input is malformed where it ends inside a quoted region, a comment,
/// a dollar-quoted body or bulk-load data, and where its last statement is
/// a bulk-load statement. Bulk-load data may end with its last line, without
/// a line end after it. Elsewhere text that no `;` follows is one more
/// statement, unless it is blank.
pub open spec fn finish(s: LexerState) -> Result<Option<EventView>, MalformedInput> {
    match s.mode {
        Mode::SingleQuote | Mode::DoubleQuote => Err(MalformedInput::UnterminatedQuote),
        Mode::LineComment | Mode::BlockComment | Mode::BlockCommentStar => Err(
            MalformedInput::UnterminatedComment,
        ),
        Mode::DollarQuote => Err(MalformedInput::UnterminatedDollarQuote),
        Mode::BulkLoad => if strip_carriage_returns(s.line) == sentinel() {
            Ok(Some(EventView::BulkLoadEnd))
        } else {
            Err(MalformedInput::UnterminatedBulkLoad)
        },
        _ => {
            let text = trim(trailing_text(s));
            if text.len() == 0 {
                Ok(None)
            } else if is_bulk_load(text) {
                Err(MalformedInput::MissingBulkData)
            } else {
                Ok(Some(EventView::Statement(text)))
            }
        },
    }
}

/// `events` and, where there is one, `event` after them.
pub open spec fn with_event(events: Seq<EventView>, event: Option<EventView>) -> Seq<EventView> {
    match event {
        Some(e) => events.push(e),
        None => events,
    }
}

/// The state after the characters of `input`, starting from `s`, and the
/// events that they complete, in order.
pub open spec fn run(s: LexerState, input: Seq<char>) -> (LexerState, Seq<EventView>)
    decreases input.len(),
{
    if input.len() == 0 {
        (s, seq![])
    } else {
        let (before, events) = run(s, input.drop_last());
        let (after, event) = step(before, input.last());
        (after, with_event(events, event))
    }
}

/// What a whole script yields: its events in order, or why it is malformed.
pub open spec fn script(input: Seq<char>) -> Result<Seq<EventView>, MalformedInput> {
    let (s, events) = run(initial(), input);
    match finish(s) {
        Ok(event) => Ok(with_event(events, event)),
        Err(e) => Err(e),
    }
}

/// `event` as specifications see it.
pub open spec fn event_view(event: Option<Event>) -> Option<EventView> {
    match event {
        Some(e) => Some(e@),
        None => None,
    }
}

/// `events` as specifications see them.
pub open spec fn events_view(events: Seq<Event>) -> Seq<EventView> {
    events.map_values(|e: Event| e@)
}

/// Whether `c` may stand in the tag of a dollar quote.
pub fn tag_char(c: char) -> (b: bool)
    ensures
        b == is_tag_char(c),
{
    ('a' <= c && c <= 'z') || ('A' <= c && c <= 'Z') || ('0' <= c && c <= '9') || c == '_'
}

/// Decides [`is_bulk_load_text`] on the lower case form of a statement.
pub fn bulk_load_text(lowered: &[char]) -> (b: bool)
    ensures
        b == is_bulk_load_text(lowered@),
{
    let verb = to_chars("copy");
    let source = to_chars("from stdin");
    starts_with(lowered, verb.as_slice()) && find_first(lowered, source.as_slice()).is_some()
}

/// Decides [`is_bulk_load`].
pub fn bulk_load_statement(statement: &[char]) -> (b: bool)
    ensures
        b == is_bulk_load(statement@),
{
    let lowered = to_lowercase(statement);
    bulk_load_text(lowered.as_slice())
}

/// `line` without the carriage returns it ends with.
pub fn without_carriage_returns(line: &[char]) -> (v: Vec<char>)
    ensures
        v@ == strip_carriage_returns(line@),
{
    let mut end: usize = line.len();
    assert(line@.take(end as int) == line@);
    while end > 0 && line[end - 1] == '\r'
        invariant
            end <= line.len(),
            strip_carriage_returns(line@) == strip_carriage_returns(line@.take(end as int)),
        decreases end,
    {
        assert(line@.take(end as int).drop_last() == line@.take(end - 1));
        end -= 1;
    }
    slice_of(line, 0, end)
}

/// Whether `line` is the line that ends bulk-load data.
pub fn is_sentinel(line: &[char]) -> (b: bool)
    ensures
        b == (line@ == sentinel()),
{
    let b = line.len() == 2 && line[0] == '\\' && line[1] == '.';
    assert(b ==> line@ =~= sentinel());
    b
}

/// The statement splitter.
pub struct Lexer {
    mode: Mode,
    statement: Vec<char>,
    delimiter: Vec<char>,
    line: Vec<char>,
}

impl View for Lexer {
    type V = LexerState;

    closed spec fn view(&self) -> LexerState {
        LexerState {
            mode: self.mode,
            statement: self.statement@,
            delimiter: self.delimiter@,
            line: self.line@,
        }
    }
}

impl Lexer {
    /// A splitter before the first character.
    pub fn new() -> (lexer: Lexer)
        ensures
            lexer@ == initial(),
    {
        Lexer { mode: Mode::Normal, statement: Vec::new(), delimiter: Vec::new(), line: Vec::new() }
    }

    /// What the splitter is inside of.
    pub fn mode(&self) -> (mode: Mode)
        ensures
            mode == self@.mode,
    {
        self.mode
    }

    fn complete(&mut self) -> (event: Option<Event>)
        ensures
            (final(self)@, event_view(event)) == terminate(old(self)@),
    {
        let text = trimmed(self.statement.as_slice());
        self.statement = Vec::new();
        if text.len() == 0 {
            self.mode = Mode::Normal;
            None
        } else if bulk_load_statement(text.as_slice()) {
            self.mode = Mode::BulkLoad;
            self.line = Vec::new();
            Some(Event::BulkLoadStart(to_text(text.as_slice())))
        } else {
            self.mode = Mode::Normal;
            Some(Event::Statement(to_text(text.as_slice())))
        }
    }

    fn normal(&mut self, c: char) -> (event: Option<Event>)
        ensures
            (final(self)@, event_view(event)) == step_normal(old(self)@, c),
    {
        if c == '-' {
            self.mode = Mode::Dash;
            None
        } else if c == '/' {
            self.mode = Mode::Slash;
            None
        } else if c == '$' {
            self.statement.push(c);
            self.delimiter = Vec::new();
            self.delimiter.push(c);
            self.mode = Mode::DollarTag;
            assert(self.delimiter@ == seq!['$']);
            None
        } else if c == '\'' {
            self.statement.push(c);
            self.mode = Mode::SingleQuote;
            None
        } else if c == '"' {
            self.statement.push(c);
            self.mode = Mode::DoubleQuote;
            None
        } else if c == ';' {
            self.mode = Mode::Normal;
            self.complete()
        } else {
            self.statement.push(c);
            self.mode = Mode::Normal;
            None
        }
    }

    fn line_end(&mut self) -> (event: Option<Event>)
        ensures
            (final(self)@, event_view(event)) == end_line(old(self)@),
    {
        let line = without_carriage_returns(self.line.as_slice());
        self.line = Vec::new();
        if is_sentinel(line.as_slice()) {
            self.mode = Mode::Normal;
            Some(Event::BulkLoadEnd)
        } else if blank(line.as_slice()) {
            None
        } else {
            Some(Event::BulkLoadLine(to_text(line.as_slice())))
        }
    }

    /// Takes the next character of the script, and returns what it
    /// completes: see [`step`].
    pub fn feed(&mut self, c: char) -> (event: Option<Event>)
        ensures
            (final(self)@, event_view(event)) == step(old(self)@, c),
    {
        match self.mode {
            Mode::Normal => self.normal(c),
            Mode::Dash => {
                if c == '-' {
                    self.mode = Mode::LineComment;
                    None
                } else {
                    self.statement.push('-');
                    self.mode = Mode::Normal;
                    self.normal(c)
                }
            },
            Mode::Slash => {
                if c == '*' {
                    self.mode = Mode::BlockCommentStar;
                    None
                } else {
                    self.statement.push('/');
                    self.mode = Mode::Normal;
                    self.normal(c)
                }
            },
            Mode::LineComment => {
                if c == '\n' {
                    self.mode = Mode::Normal;
                }
                None
            },
            Mode::BlockComment => {
                if c == '*' {
                    self.mode = Mode::BlockCommentStar;
                }
                None
            },
            Mode::BlockCommentStar => {
                if c == '/' {
                    self.mode = Mode::Normal;
                } else if c != '*' {
                    self.mode = Mode::BlockComment;
                }
                None
            },
            Mode::DollarTag => {
                self.statement.push(c);
                if c == '$' {
                    self.delimiter.push(c);
                    self.mode = Mode::DollarQuote;
                } else if tag_char(c) {
                    self.delimiter.push(c);
                } else {
                    self.delimiter = Vec::new();
                    self.mode = Mode::Normal;
                }
                None
            },
            Mode::DollarQuote => {
                self.statement.push(c);
                if c == '$' && ends_with(self.statement.as_slice(), self.delimiter.as_slice()) {
                    self.delimiter = Vec::new();
                    self.mode = Mode::Normal;
                }
                None
            },
            Mode::SingleQuote => {
                self.statement.push(c);
                if c == '\'' {
                    self.mode = Mode::SingleQuoteEnd;
                }
                None
            },
            Mode::SingleQuoteEnd => {
                if c == '\'' {
                    self.statement.push(c);
                    self.mode = Mode::SingleQuote;
                    None
                } else {
                    self.mode = Mode::Normal;
                    self.normal(c)
                }
            },
            Mode::DoubleQuote => {
                self.statement.push(c);
                if c == '"' {
                    self.mode = Mode::DoubleQuoteEnd;
                }
                None
            },
            Mode::DoubleQuoteEnd => {
                if c == '"' {
                    self.statement.push(c);
                    self.mode = Mode::DoubleQuote;
                    None
                } else {
                    self.mode = Mode::Normal;
                    self.normal(c)
                }
            },
            Mode::BulkLoad => {
                if c == '\n' {
                    self.line_end()
                } else {
                    self.line.push(c);
                    None
                }
            },
        }
    }

    /// What the end of the script yields where it ends here: the last
    /// event, or why the script is malformed. See [`finish`].
    pub fn finish(&self) -> (r: Result<Option<Event>, MalformedInput>)
        ensures
            match r {
                Ok(event) => finish(self@) == Ok::<Option<EventView>, MalformedInput>(
                    event_view(event),
                ),
                Err(e) => finish(self@) == Err::<Option<EventView>, MalformedInput>(e),
            },
    {
        match self.mode {
            Mode::SingleQuote | Mode::DoubleQuote => Err(MalformedInput::UnterminatedQuote),
            Mode::LineComment | Mode::BlockComment | Mode::BlockCommentStar => Err(
                MalformedInput::UnterminatedComment,
            ),
            Mode::DollarQuote => Err(MalformedInput::UnterminatedDollarQuote),
            Mode::BulkLoad => {
                let line = without_carriage_returns(self.line.as_slice());
                if is_sentinel(line.as_slice()) {
                    Ok(Some(Event::BulkLoadEnd))
                } else {
                    Err(MalformedInput::UnterminatedBulkLoad)
                }
            },
            Mode::Dash | Mode::Slash | Mode::Normal | Mode::DollarTag | Mode::SingleQuoteEnd
            | Mode::DoubleQuoteEnd => {
                let text = match self.mode {
                    Mode::Dash => {
                        let mut all = slice_of(self.statement.as_slice(), 0, self.statement.len());
                        all.push('-');
                        assert(all@ == self.statement@.push('-'));
                        trimmed(all.as_slice())
                    },
                    Mode::Slash => {
                        let mut all = slice_of(self.statement.as_slice(), 0, self.statement.len());
                        all.push('/');
                        assert(all@ == self.statement@.push('/'));
                        trimmed(all.as_slice())
                    },
                    _ => trimmed(self.statement.as_slice()),
                };
                if text.len() == 0 {
                    Ok(None)
                } else if bulk_load_statement(text.as_slice()) {
                    Err(MalformedInput::MissingBulkData)
                } else {
                    Ok(Some(Event::Statement(to_text(text.as_slice()))))
                }
            },
        }
    }
}

} // verus!
