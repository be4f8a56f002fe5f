//! The text of a structured dump: the statements that make a schema or a
//! table again, as they are written to the export file.
use crate::sql::{quote_ident, quoted_ident};
use crate::text::{push_str, to_chars, to_text};
use vstd::prelude::*;

verus! {

/// The texts `items` one after the other, with `separator` between each
/// two.
pub open spec fn joined(items: Seq<Seq<char>>, separator: Seq<char>) -> Seq<char>
    decreases items.len(),
{
    if items.len() == 0 {
        seq![]
    } else if items.len() == 1 {
        items[0]
    } else {
        joined(items.drop_last(), separator) + separator + items.last()
    }
}

/// The texts of `items`.
pub open spec fn texts(items: Seq<String>) -> Seq<Seq<char>> {
    items.map_values(|s: String| s@)
}

/// `name` in `schema`, both as quoted identifiers.
pub open spec fn qualified_name(schema: Seq<char>, name: Seq<char>) -> Seq<char> {
    quoted_ident(schema) + "."@ + quoted_ident(name)
}

/// The definition of a column inside the statement that makes its table.
pub open spec fn column_definition_text(
    name: Seq<char>,
    data_type: Seq<char>,
    default: Option<Seq<char>>,
    not_null: bool,
) -> Seq<char> {
    quoted_ident(name) + " "@ + data_type + match default {
        Some(expression) => " DEFAULT "@ + expression,
        None => seq![],
    } + if not_null {
        " NOT NULL"@
    } else {
        seq![]
    }
}

/// The statement that makes the table `table` of `schema` with the
/// columns defined by `definitions`.
pub open spec fn create_table_text(
    schema: Seq<char>,
    table: Seq<char>,
    definitions: Seq<Seq<char>>,
) -> Seq<char> {
    "CREATE TABLE "@ + qualified_name(schema, table) + " (\n    "@ + joined(
        definitions,
        ",\n    "@,
    ) + "\n);\n"@
}

/// The statement that adds the constraint `constraint`, defined by
/// `definition`, to the table `table` of `schema`.
pub open spec fn add_constraint_text(
    schema: Seq<char>,
    table: Seq<char>,
    constraint: Seq<char>,
    definition: Seq<char>,
) -> Seq<char> {
    "ALTER TABLE "@ + qualified_name(schema, table) + " ADD CONSTRAINT "@ + quoted_ident(
        constraint,
    ) + " "@ + definition + ";\n"@
}

/// The statement that makes an index again, from its definition: the
/// definition, ended by `;` where it does not end so, on a line.
pub open spec fn index_text(definition: Seq<char>) -> Seq<char> {
    if definition.len() > 0 && definition.last() == ';' {
        definition + "\n"@
    } else {
        definition + ";\n"@
    }
}

/// The columns `columns` as a list in a bulk-load statement.
pub open spec fn column_list(columns: Seq<Seq<char>>) -> Seq<char> {
    joined(columns.map_values(|c: Seq<char>| quoted_ident(c)), ", "@)
}

/// The bulk-load statement that the data of a table follows in the export
/// file.
pub open spec fn copy_in_text(schema: Seq<char>, table: Seq<char>, columns: Seq<Seq<char>>) -> Seq<
    char,
> {
    "COPY "@ + qualified_name(schema, table) + " ("@ + column_list(columns) + ") FROM stdin;\n"@
}

/// The statement that asks the server for the data of a table.
pub open spec fn copy_out_text(schema: Seq<char>, table: Seq<char>, columns: Seq<Seq<char>>) -> Seq<
    char,
> {
    "COPY "@ + qualified_name(schema, table) + " ("@ + column_list(columns) + ") TO STDOUT"@
}

/// The statement that makes the view `view` of `schema` again.
pub open spec fn create_view_text(schema: Seq<char>, view: Seq<char>, definition: Seq<char>) -> Seq<
    char,
> {
    "CREATE OR REPLACE VIEW "@ + qualified_name(schema, view) + " AS\n"@ + definition + ";\n\n"@
}

/// The statement that makes the sequence `sequence` of `schema` again.
pub open spec fn create_sequence_text(schema: Seq<char>, sequence: Seq<char>) -> Seq<char> {
    "CREATE SEQUENCE "@ + qualified_name(schema, sequence) + ";\n"@
}

/// What the export of the schema `schema` starts with.
pub open spec fn schema_header_text(schema: Seq<char>) -> Seq<char> {
    "-- FastDB schema export\n-- Schema: "@ + schema + "\n\nCREATE SCHEMA IF NOT EXISTS "@
        + quoted_ident(schema) + ";\n\n"@
}

/// What the export of the table `table` of `schema` starts with.
pub open spec fn table_header_text(schema: Seq<char>, table: Seq<char>) -> Seq<char> {
    "-- FastDB table export\n-- Table: "@ + schema + "."@ + table + "\n\n"@
}

/// The texts `items` one after the other, with `separator` between each
/// two: see [`joined`].
pub fn join(items: &Vec<String>, separator: &str) -> (text: String)
    ensures
        text@ == joined(texts(items@), separator@),
{
    let mut out: Vec<char> = Vec::new();
    let mut i: usize = 0;
    assert(texts(items@).take(0) == Seq::<Seq<char>>::empty());
    while i < items.len()
        invariant
            i <= items@.len(),
            out@ == joined(texts(items@).take(i as int), separator@),
        decreases items@.len() - i,
    {
        let ghost front = texts(items@).take(i as int);
        let ghost next = texts(items@).take(i + 1);
        assert(next.drop_last() == front);
        assert(next.last() == items@[i as int]@);
        if i > 0 {
            push_str(&mut out, separator);
        }
        push_str(&mut out, items[i].as_str());
        assert(out@ == joined(next, separator@)) by {
            if i == 0 {
                assert(front.len() == 0);
                assert(next[0] == items@[0]@);
            }
        }
        i += 1;
    }
    assert(texts(items@).take(items@.len() as int) == texts(items@));
    to_text(out.as_slice())
}

fn push_qualified(out: &mut Vec<char>, schema: &str, name: &str)
    ensures
        final(out)@ == old(out)@ + qualified_name(schema@, name@),
{
    let ghost start = out@;
    let quoted = quote_ident(schema);
    push_str(out, quoted.as_str());
    push_str(out, ".");
    let quoted = quote_ident(name);
    push_str(out, quoted.as_str());
    assert(out@ == start + qualified_name(schema@, name@));
}

fn quoted_columns(columns: &Vec<String>) -> (quoted: Vec<String>)
    ensures
        texts(quoted@) == texts(columns@).map_values(|c: Seq<char>| quoted_ident(c)),
{
    let mut quoted: Vec<String> = Vec::new();
    let mut i: usize = 0;
    while i < columns.len()
        invariant
            i <= columns@.len(),
            quoted@.len() == i,
            forall|j: int| 0 <= j < i ==> (#[trigger] quoted@[j])@ == quoted_ident(columns@[j]@),
        decreases columns@.len() - i,
    {
        quoted.push(quote_ident(columns[i].as_str()));
        i += 1;
    }
    assert(texts(quoted@) =~= texts(columns@).map_values(|c: Seq<char>| quoted_ident(c)));
    quoted
}

/// The definition of a column: see [`column_definition_text`].
pub fn column_definition(name: &str, data_type: &str, default: Option<&str>, not_null: bool) -> (text:
    String)
    ensures
        text@ == column_definition_text(
            name@,
            data_type@,
            match default {
                Some(expression) => Some(expression@),
                None => None,
            },
            not_null,
        ),
{
    let mut out: Vec<char> = Vec::new();
    let quoted = quote_ident(name);
    push_str(&mut out, quoted.as_str());
    push_str(&mut out, " ");
    push_str(&mut out, data_type);
    match default {
        Some(expression) => {
            push_str(&mut out, " DEFAULT ");
            push_str(&mut out, expression);
        },
        None => {},
    }
    if not_null {
        push_str(&mut out, " NOT NULL");
    }
    assert(out@ == column_definition_text(
        name@,
        data_type@,
        match default {
            Some(expression) => Some(expression@),
            None => None,
        },
        not_null,
    ));
    to_text(out.as_slice())
}

/// The statement that makes a table: see [`create_table_text`].
pub fn create_table_statement(schema: &str, table: &str, definitions: &Vec<String>) -> (text: String)
    ensures
        text@ == create_table_text(schema@, table@, texts(definitions@)),
{
    let mut out: Vec<char> = Vec::new();
    push_str(&mut out, "CREATE TABLE ");
    push_qualified(&mut out, schema, table);
    push_str(&mut out, " (\n    ");
    let body = join(definitions, ",\n    ");
    push_str(&mut out, body.as_str());
    push_str(&mut out, "\n);\n");
    assert(out@ == create_table_text(schema@, table@, texts(definitions@)));
    to_text(out.as_slice())
}

/// The statement that adds a constraint: see [`add_constraint_text`].
pub fn add_constraint_statement(schema: &str, table: &str, constraint: &str, definition: &str) -> (text:
    String)
    ensures
        text@ == add_constraint_text(schema@, table@, constraint@, definition@),
{
    let mut out: Vec<char> = Vec::new();
    push_str(&mut out, "ALTER TABLE ");
    push_qualified(&mut out, schema, table);
    push_str(&mut out, " ADD CONSTRAINT ");
    let quoted = quote_ident(constraint);
    push_str(&mut out, quoted.as_str());
    push_str(&mut out, " ");
    push_str(&mut out, definition);
    push_str(&mut out, ";\n");
    assert(out@ == add_constraint_text(schema@, table@, constraint@, definition@));
    to_text(out.as_slice())
}

/// The statement that makes an index again: see [`index_text`].
pub fn index_statement(definition: &str) -> (text: String)
    ensures
        text@ == index_text(definition@),
{
    let mut out = to_chars(definition);
    if out.len() > 0 && out[out.len() - 1] == ';' {
        push_str(&mut out, "\n");
    } else {
        push_str(&mut out, ";\n");
    }
    to_text(out.as_slice())
}

/// Whether `name` is one of `names`: an index that a constraint makes is
/// made again with the constraint, and not by a statement of its own.
pub fn is_listed(name: &str, names: &Vec<String>) -> (b: bool)
    ensures
        b == exists|i: int| 0 <= i < names@.len() && (#[trigger] names@[i])@ == name@,
{
    let wanted = String::from_str(name);
    let mut i: usize = 0;
    while i < names.len()
        invariant
            i <= names@.len(),
            wanted@ == name@,
            forall|j: int| 0 <= j < i ==> (#[trigger] names@[j])@ != name@,
        decreases names@.len() - i,
    {
        if names[i] == wanted {
            assert(names@[i as int]@ == name@);
            return true;
        }
        i += 1;
    }
    false
}

/// The bulk-load statement before the data of a table: see
/// [`copy_in_text`].
pub fn copy_in_statement(schema: &str, table: &str, columns: &Vec<String>) -> (text: String)
    ensures
        text@ == copy_in_text(schema@, table@, texts(columns@)),
{
    let mut out: Vec<char> = Vec::new();
    push_str(&mut out, "COPY ");
    push_qualified(&mut out, schema, table);
    push_str(&mut out, " (");
    let list = join(&quoted_columns(columns), ", ");
    push_str(&mut out, list.as_str());
    push_str(&mut out, ") FROM stdin;\n");
    assert(out@ == copy_in_text(schema@, table@, texts(columns@)));
    to_text(out.as_slice())
}

/// The statement that asks for the data of a table: see
/// [`copy_out_text`].
pub fn copy_out_statement(schema: &str, table: &str, columns: &Vec<String>) -> (text: String)
    ensures
        text@ == copy_out_text(schema@, table@, texts(columns@)),
{
    let mut out: Vec<char> = Vec::new();
    push_str(&mut out, "COPY ");
    push_qualified(&mut out, schema, table);
    push_str(&mut out, " (");
    let list = join(&quoted_columns(columns), ", ");
    push_str(&mut out, list.as_str());
    push_str(&mut out, ") TO STDOUT");
    assert(out@ == copy_out_text(schema@, table@, texts(columns@)));
    to_text(out.as_slice())
}

/// The statement that makes a view again: see [`create_view_text`].
pub fn create_view_statement(schema: &str, view: &str, definition: &str) -> (text: String)
    ensures
        text@ == create_view_text(schema@, view@, definition@),
{
    let mut out: Vec<char> = Vec::new();
    push_str(&mut out, "CREATE OR REPLACE VIEW ");
    push_qualified(&mut out, schema, view);
    push_str(&mut out, " AS\n");
    push_str(&mut out, definition);
    push_str(&mut out, ";\n\n");
    assert(out@ == create_view_text(schema@, view@, definition@));
    to_text(out.as_slice())
}

/// The statement that makes a sequence again: see
/// [`create_sequence_text`].
pub fn create_sequence_statement(schema: &str, sequence: &str) -> (text: String)
    ensures
        text@ == create_sequence_text(schema@, sequence@),
{
    let mut out: Vec<char> = Vec::new();
    push_str(&mut out, "CREATE SEQUENCE ");
    push_qualified(&mut out, schema, sequence);
    push_str(&mut out, ";\n");
    assert(out@ == create_sequence_text(schema@, sequence@));
    to_text(out.as_slice())
}

/// What the export of a schema starts with: see [`schema_header_text`].
pub fn schema_header(schema: &str) -> (text: String)
    ensures
        text@ == schema_header_text(schema@),
{
    let mut out: Vec<char> = Vec::new();
    push_str(&mut out, "-- FastDB schema export\n-- Schema: ");
    push_str(&mut out, schema);
    push_str(&mut out, "\n\nCREATE SCHEMA IF NOT EXISTS ");
    let quoted = quote_ident(schema);
    push_str(&mut out, quoted.as_str());
    push_str(&mut out, ";\n\n");
    assert(out@ == schema_header_text(schema@));
    to_text(out.as_slice())
}

/// What the export of a table starts with: see [`table_header_text`].
pub fn table_header(schema: &str, table: &str) -> (text: String)
    ensures
        text@ == table_header_text(schema@, table@),
{
    let mut out: Vec<char> = Vec::new();
    push_str(&mut out, "-- FastDB table export\n-- Table: ");
    push_str(&mut out, schema);
    push_str(&mut out, ".");
    push_str(&mut out, table);
    push_str(&mut out, "\n\n");
    assert(out@ == table_header_text(schema@, table@));
    to_text(out.as_slice())
}

/// The message of a finished export of a schema to `output_path`.
pub fn schema_exported(output_path: &str) -> (text: String)
    ensures
        text@ == "Schema exported to "@ + output_path@,
{
    String::from_str("Schema exported to ").concat(output_path)
}

/// The message of a finished export of a table to `output_path`.
pub fn table_exported(output_path: &str) -> (text: String)
    ensures
        text@ == "Table exported to "@ + output_path@,
{
    String::from_str("Table exported to ").concat(output_path)
}

} // verus!
