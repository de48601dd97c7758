//! The statements by which a time series is recorded in a table: one row for
//! each instant, with the time and, for each named entity, its state and the
//! derivative of its state.

use vstd::prelude::*;
use vstd::string::StringExecFns;

verus! {

/// The column definitions after the time column: for each name, in order,
/// `, <name>_state REAL, <name>_dstate REAL`.
pub open spec fn definition_columns(names: Seq<Seq<char>>) -> Seq<char>
    decreases names.len(),
{
    if names.len() == 0 {
        Seq::empty()
    } else {
        definition_columns(names.drop_last()) + ", "@ + names.last() + "_state REAL, "@
            + names.last() + "_dstate REAL"@
    }
}

/// The column names after the time column: for each name, in order,
/// `, <name>_state, <name>_dstate`.
pub open spec fn insert_columns(names: Seq<Seq<char>>) -> Seq<char>
    decreases names.len(),
{
    if names.len() == 0 {
        Seq::empty()
    } else {
        insert_columns(names.drop_last()) + ", "@ + names.last() + "_state, "@ + names.last()
            + "_dstate"@
    }
}

/// The placeholders after that of the time: `, ?, ?` for each of `n` names.
pub open spec fn insert_placeholders(n: nat) -> Seq<char>
    decreases n,
{
    if n == 0 {
        Seq::empty()
    } else {
        insert_placeholders((n - 1) as nat) + ", ?, ?"@
    }
}

/// The statement that creates the table.
pub open spec fn table_definition_text(names: Seq<Seq<char>>) -> Seq<char> {
    "CREATE TABLE IF NOT EXISTS data (time REAL"@ + definition_columns(names) + ")"@
}

/// The statement that inserts one row.
pub open spec fn insert_statement_text(names: Seq<Seq<char>>) -> Seq<char> {
    "INSERT INTO data (time"@ + insert_columns(names) + ") VALUES (?"@ + insert_placeholders(
        names.len(),
    ) + ")"@
}

/// The statement that creates the table `data`, with a column for the time
/// and two columns for each of `names`: its state and the derivative.
pub fn table_definition(names: &Vec<String>) -> (text: String)
    ensures
        text@ == table_definition_text(names.deep_view()),
{
    let ghost all = names.deep_view();
    let mut text = String::from_str("CREATE TABLE IF NOT EXISTS data (time REAL");
    let mut i: usize = 0;
    while i < names.len()
        invariant
            i <= names.len(),
            all == names.deep_view(),
            text@ == "CREATE TABLE IF NOT EXISTS data (time REAL"@ + definition_columns(
                all.take(i as int),
            ),
        decreases names.len() - i,
    {
        proof {
            let next = all.take(i + 1);
            assert(next.drop_last() =~= all.take(i as int));
            assert(next.last() == names[i as int]@);
        }
        text.append(", ");
        text.append(names[i].as_str());
        text.append("_state REAL, ");
        text.append(names[i].as_str());
        text.append("_dstate REAL");
        assert(text@ =~= "CREATE TABLE IF NOT EXISTS data (time REAL"@ + definition_columns(
            all.take(i + 1),
        ));
        i += 1;
    }
    assert(all.take(i as int) =~= all);
    text.append(")");
    text
}

/// The statement that inserts one row into the table `data`: the time, then
/// for each of `names` its state and the derivative.
pub fn insert_statement(names: &Vec<String>) -> (text: String)
    ensures
        text@ == insert_statement_text(names.deep_view()),
{
    let ghost all = names.deep_view();
    let mut text = String::from_str("INSERT INTO data (time");
    let mut i: usize = 0;
    while i < names.len()
        invariant
            i <= names.len(),
            all == names.deep_view(),
            text@ == "INSERT INTO data (time"@ + insert_columns(all.take(i as int)),
        decreases names.len() - i,
    {
        proof {
            let next = all.take(i + 1);
            assert(next.drop_last() =~= all.take(i as int));
            assert(next.last() == names[i as int]@);
        }
        text.append(", ");
        text.append(names[i].as_str());
        text.append("_state, ");
        text.append(names[i].as_str());
        text.append("_dstate");
        assert(text@ =~= "INSERT INTO data (time"@ + insert_columns(all.take(i + 1)));
        i += 1;
    }
    assert(all.take(i as int) =~= all);
    text.append(") VALUES (?");
    let ghost head = text@;
    let mut i: usize = 0;
    while i < names.len()
        invariant
            i <= names.len(),
            text@ == head + insert_placeholders(i as nat),
        decreases names.len() - i,
    {
        text.append(", ?, ?");
        assert(text@ =~= head + insert_placeholders((i + 1) as nat));
        i += 1;
    }
    text.append(")");
    text
}

} // verus!
