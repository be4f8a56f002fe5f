//! What the engine reads off the text of a statement: its leading keyword
//! behind comments, and whether it reads or writes.
use crate::text::{
    count_leading_spaces, find, find_first, lemma_find_from, lemma_spaces_bounds, lowercase,
    lowercase_of, starts_with, to_chars, to_text, trim_start,
};
use vstd::prelude::*;
use vstd::slice::slice_subrange;

verus! {

/// `sql` without the white space and the comments it starts with.
///
/// A line comment runs to the end of its line, a block comment to the first
/// `*/` in it, which may share its `*` with the `/*` that opens it. Where a
/// comment does not end, nothing is left.
pub open spec fn strip_comments(sql: Seq<char>) -> Seq<char>
    decreases sql.len(),
    via strip_comments_decreases
{
    let text = trim_start(sql);
    if "--"@.is_prefix_of(text) {
        match find(text, "\n"@) {
            Some(at) => strip_comments(text.skip(at + 1)),
            None => seq![],
        }
    } else if "/*"@.is_prefix_of(text) {
        match find(text, "*/"@) {
            Some(at) => strip_comments(text.skip(at + 2)),
            None => seq![],
        }
    } else {
        text
    }
}

#[via_fn]
proof fn strip_comments_decreases(sql: Seq<char>) {
    reveal_strlit("\n");
    reveal_strlit("*/");
    reveal_strlit("--");
    reveal_strlit("/*");
    lemma_spaces_bounds(sql);
    let text = trim_start(sql);
    lemma_find_from(text, "\n"@, 0);
    lemma_find_from(text, "*/"@, 0);
}

/// The leading keyword form of `sql`: the lower case of what follows its
/// leading comments.
pub open spec fn sql_head(sql: Seq<char>) -> Seq<char> {
    lowercase_of(strip_comments(sql))
}

/// Whether a statement whose leading keyword form is `head` only reads:
/// a selection, a common table expression, an introspection or a plan.
pub open spec fn is_read_only_head(head: Seq<char>) -> bool {
    ||| "select"@.is_prefix_of(head)
    ||| "with"@.is_prefix_of(head)
    ||| "show"@.is_prefix_of(head)
    ||| "explain"@.is_prefix_of(head)
}

/// `ident` with each `"` in it doubled.
pub open spec fn doubled_quotes(ident: Seq<char>) -> Seq<char>
    decreases ident.len(),
{
    if ident.len() == 0 {
        seq![]
    } else if ident.last() == '"' {
        doubled_quotes(ident.drop_last()).push('"').push('"')
    } else {
        doubled_quotes(ident.drop_last()).push(ident.last())
    }
}

/// `ident` as a quoted identifier.
pub open spec fn quoted_ident(ident: Seq<char>) -> Seq<char> {
    seq!['"'] + doubled_quotes(ident) + seq!['"']
}

/// How a statement changes the schema tree, as far as its leading keyword
/// form tells.
#[derive(Clone, Copy, Debug, PartialEq, Eq, Structural)]
pub enum SchemaChange {
    CreateTable,
    DropTable,
    DropDatabase,
    DropSchema,
}

/// The change that a statement with the leading keyword form `head` makes
/// to the schema tree.
pub open spec fn schema_change_of(head: Seq<char>) -> Option<SchemaChange> {
    if "create table"@.is_prefix_of(head) {
        Some(SchemaChange::CreateTable)
    } else if "drop table"@.is_prefix_of(head) {
        Some(SchemaChange::DropTable)
    } else if "drop database"@.is_prefix_of(head) {
        Some(SchemaChange::DropDatabase)
    } else if "drop schema"@.is_prefix_of(head) {
        Some(SchemaChange::DropSchema)
    } else {
        None
    }
}

/// `text` starts with `prefix`.
fn has_prefix(text: &[char], prefix: &str) -> (b: bool)
    ensures
        b == prefix@.is_prefix_of(text@),
{
    let prefix = to_chars(prefix);
    starts_with(text, prefix.as_slice())
}

/// Where in `sql` the text behind its leading comments starts, or the
/// length of `sql` where nothing is left.
fn comments_end(sql: &[char]) -> (at: usize)
    ensures
        at <= sql.len(),
        sql@.skip(at as int) == strip_comments(sql@),
{
    let dashes = to_chars("--");
    let open = to_chars("/*");
    let close = to_chars("*/");
    let newline = to_chars("\n");
    let mut from: usize = 0;
    assert(sql@.skip(0) == sql@);
    loop
        invariant
            from <= sql.len(),
            strip_comments(sql@) == strip_comments(sql@.skip(from as int)),
            dashes@ == "--"@,
            open@ == "/*"@,
            close@ == "*/"@,
            newline@ == "\n"@,
        decreases sql.len() - from,
    {
        let rest = slice_subrange(sql, from, sql.len());
        let spaces = count_leading_spaces(rest);
        let text = slice_subrange(rest, spaces, rest.len());
        assert(text@ == trim_start(rest@));
        assert(text@ == sql@.skip(from + spaces));
        proof {
            reveal_strlit("\n");
            reveal_strlit("*/");
            reveal_strlit("--");
            reveal_strlit("/*");
            lemma_find_from(text@, "\n"@, 0);
            lemma_find_from(text@, "*/"@, 0);
        }
        if starts_with(text, dashes.as_slice()) {
            match find_first(text, newline.as_slice()) {
                Some(at) => {
                    assert(text@.skip(at + 1) == sql@.skip(from + spaces + at + 1));
                    from = from + spaces + at + 1;
                },
                None => {
                    assert(sql@.skip(sql.len() as int) == Seq::<char>::empty());
                    return sql.len();
                },
            }
        } else if starts_with(text, open.as_slice()) {
            match find_first(text, close.as_slice()) {
                Some(at) => {
                    assert(text@.skip(at + 2) == sql@.skip(from + spaces + at + 2));
                    from = from + spaces + at + 2;
                },
                None => {
                    assert(sql@.skip(sql.len() as int) == Seq::<char>::empty());
                    return sql.len();
                },
            }
        } else {
            return from + spaces;
        }
    }
}

/// `sql` without the white space and the comments it starts with: see
/// [`strip_comments`].
pub fn strip_leading_comments<'a>(sql: &'a str) -> (rest: &'a str)
    ensures
        rest@ == strip_comments(sql@),
{
    let chars = to_chars(sql);
    let at = comments_end(chars.as_slice());
    sql.substring_char(at, chars.len())
}

/// The leading keyword form of `sql`: see [`sql_head`].
pub fn normalize_sql_head(sql: &str) -> (head: String)
    ensures
        head@ == sql_head(sql@),
{
    lowercase(strip_leading_comments(sql))
}

/// Decides [`is_read_only_head`] on the leading keyword form of a
/// statement.
pub fn read_only_head(head: &str) -> (b: bool)
    ensures
        b == is_read_only_head(head@),
{
    let chars = to_chars(head);
    has_prefix(chars.as_slice(), "select") || has_prefix(chars.as_slice(), "with") || has_prefix(
        chars.as_slice(),
        "show",
    ) || has_prefix(chars.as_slice(), "explain")
}

/// Whether `sql` only reads, so that it is executed for its rows.
pub fn is_query(sql: &str) -> (b: bool)
    ensures
        b == is_read_only_head(sql_head(sql@)),
{
    let head = normalize_sql_head(sql);
    read_only_head(head.as_str())
}

/// Decides [`schema_change_of`] on the leading keyword form of a statement.
pub fn schema_change(head: &str) -> (change: Option<SchemaChange>)
    ensures
        change == schema_change_of(head@),
{
    let chars = to_chars(head);
    if has_prefix(chars.as_slice(), "create table") {
        Some(SchemaChange::CreateTable)
    } else if has_prefix(chars.as_slice(), "drop table") {
        Some(SchemaChange::DropTable)
    } else if has_prefix(chars.as_slice(), "drop database") {
        Some(SchemaChange::DropDatabase)
    } else if has_prefix(chars.as_slice(), "drop schema") {
        Some(SchemaChange::DropSchema)
    } else {
        None
    }
}

/// `ident` as a quoted identifier: between `"`, with each `"` in it
/// doubled.
pub fn quote_ident(ident: &str) -> (quoted: String)
    ensures
        quoted@ == quoted_ident(ident@),
{
    let chars = to_chars(ident);
    let mut out: Vec<char> = Vec::new();
    out.push('"');
    let mut i: usize = 0;
    assert(chars@.take(0) == Seq::<char>::empty());
    while i < chars.len()
        invariant
            i <= chars.len(),
            out@ == seq!['"'] + doubled_quotes(chars@.take(i as int)),
        decreases chars.len() - i,
    {
        let c = chars[i];
        assert(chars@.take(i + 1).drop_last() == chars@.take(i as int));
        if c == '"' {
            out.push('"');
            out.push('"');
        } else {
            out.push(c);
        }
        i += 1;
    }
    assert(chars@.take(chars.len() as int) == chars@);
    out.push('"');
    to_text(out.as_slice())
}

} // verus!
