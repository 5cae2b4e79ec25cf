//! The text of the queries. Names of tables and columns are written as they
//! are given: they come from the record's declaration and are not escaped.

use crate::text::{decimal, join, push_decimal, push_joined, texts};
use vstd::prelude::*;
use vstd::string::*;

verus! {

/// `SELECT * FROM <table>`
pub open spec fn select_all_text(table: Seq<char>) -> Seq<char> {
    "SELECT * FROM "@ + table
}

/// `SELECT * FROM <table> WHERE <column> = $1`
pub open spec fn select_by_field_text(table: Seq<char>, column: Seq<char>) -> Seq<char> {
    "SELECT * FROM "@ + table + " WHERE "@ + column + " = $1"@
}

/// The placeholder of the parameter at position `n`: `$n`.
pub open spec fn placeholder(n: nat) -> Seq<char> {
    "$"@ + decimal(n)
}

/// The placeholders `$1` to `$count`, in order.
pub open spec fn placeholders(count: nat) -> Seq<Seq<char>> {
    Seq::new(count, |i: int| placeholder((i + 1) as nat))
}

/// `INSERT INTO <table> (<col1>,<col2>,...) VALUES ($1,$2,...)`, with one
/// placeholder for each column, numbered from 1 in the columns' order.
pub open spec fn insert_text(table: Seq<char>, columns: Seq<Seq<char>>) -> Seq<char> {
    "INSERT INTO "@ + table + " ("@ + join(columns, ","@) + ") VALUES ("@ + join(
        placeholders(columns.len()),
        ","@,
    ) + ")"@
}

/// The insert followed by ` RETURNING *`.
pub open spec fn insert_returning_text(table: Seq<char>, columns: Seq<Seq<char>>) -> Seq<char> {
    insert_text(table, columns) + " RETURNING *"@
}

/// The assignments `<col>=$n` of an update: the column at index `i` takes
/// the parameter at position `i + 2`, since the first parameter is the
/// identity.
pub open spec fn assignments(columns: Seq<Seq<char>>) -> Seq<Seq<char>> {
    Seq::new(columns.len(), |i: int| columns[i] + "="@ + placeholder((i + 2) as nat))
}

/// `UPDATE <table> SET <col1>=$2,<col2>=$3,... WHERE id=$1 RETURNING *`.
/// The row is always found by the column `id`, whatever the name of the
/// identity field's column is.
pub open spec fn update_text(table: Seq<char>, columns: Seq<Seq<char>>) -> Seq<char> {
    "UPDATE "@ + table + " SET "@ + join(assignments(columns), ","@)
        + " WHERE id=$1 RETURNING *"@
}

/// The query that selects every row of a table.
pub fn select_all(table: &str) -> (query: String)
    ensures
        query@ == select_all_text(table@),
{
    let mut query = "SELECT * FROM ".to_owned();
    query.append(table);
    query
}

/// The query that selects the rows in which a column has a given value, the
/// query's one parameter.
pub fn select_by_field(table: &str, column: &str) -> (query: String)
    ensures
        query@ == select_by_field_text(table@, column@),
{
    let mut query = "SELECT * FROM ".to_owned();
    query.append(table);
    query.append(" WHERE ");
    query.append(column);
    query.append(" = $1");
    query
}

/// Appends `$1,$2,...` up to `$count`.
fn push_placeholders(out: &mut String, count: usize)
    ensures
        final(out)@ == old(out)@ + join(placeholders(count as nat), ","@),
{
    let ghost all = placeholders(count as nat);
    let mut i: usize = 0;
    while i < count
        invariant
            i <= count,
            all == placeholders(count as nat),
            out@ == old(out)@ + join(all.take(i as int), ","@),
        decreases count - i,
    {
        proof {
            let next = all.take(i as int + 1);
            assert(next.drop_last() =~= all.take(i as int));
            assert(next.last() == placeholder((i + 1) as nat));
        }
        if i > 0 {
            out.append(",");
        }
        out.append("$");
        push_decimal(out, i as u128 + 1);
        i = i + 1;
    }
    assert(all.take(i as int) =~= all);
}

/// Appends `<col1>=$2,<col2>=$3,...`.
fn push_assignments(out: &mut String, columns: &Vec<String>)
    ensures
        final(out)@ == old(out)@ + join(assignments(texts(columns@)), ","@),
{
    let ghost all = assignments(texts(columns@));
    let mut i: usize = 0;
    while i < columns.len()
        invariant
            i <= columns.len(),
            all == assignments(texts(columns@)),
            out@ == old(out)@ + join(all.take(i as int), ","@),
        decreases columns.len() - i,
    {
        proof {
            let next = all.take(i as int + 1);
            assert(next.drop_last() =~= all.take(i as int));
            assert(next.last() == columns@[i as int]@ + "="@ + placeholder((i + 2) as nat));
        }
        if i > 0 {
            out.append(",");
        }
        out.append(columns[i].as_str());
        out.append("=");
        out.append("$");
        push_decimal(out, i as u128 + 2);
        i = i + 1;
    }
    assert(all.take(i as int) =~= all);
}

/// The query that inserts one row: the columns in the order given, and one
/// positional parameter for each.
pub fn insert(table: &str, columns: &Vec<String>) -> (query: String)
    ensures
        query@ == insert_text(table@, texts(columns@)),
{
    let mut query = "INSERT INTO ".to_owned();
    query.append(table);
    query.append(" (");
    push_joined(&mut query, columns, ",");
    query.append(") VALUES (");
    push_placeholders(&mut query, columns.len());
    query.append(")");
    query
}

/// The insert that also returns the row it stored.
pub fn insert_returning(table: &str, columns: &Vec<String>) -> (query: String)
    ensures
        query@ == insert_returning_text(table@, texts(columns@)),
{
    let mut query = insert(table, columns);
    query.append(" RETURNING *");
    query
}

/// The query that updates the row with a given identity and returns it.
/// Its first parameter is the identity; the columns' values follow in the
/// order given.
pub fn update_by_identity(table: &str, columns: &Vec<String>) -> (query: String)
    ensures
        query@ == update_text(table@, texts(columns@)),
{
    let mut query = "UPDATE ".to_owned();
    query.append(table);
    query.append(" SET ");
    push_assignments(&mut query, columns);
    query.append(" WHERE id=$1 RETURNING *");
    query
}

} // verus!
