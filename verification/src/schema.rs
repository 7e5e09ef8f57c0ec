//! How an older database is brought up to date.
use vstd::prelude::*;

use crate::text::{contains, occurs_in, same};

verus! {

/// Whether a table has a column.
pub open spec fn has_column(present: Seq<String>, name: Seq<char>) -> bool {
    exists|i: int| 0 <= i < present.len() && (#[trigger] present[i])@ == name
}

/// The statement that adds a column to a table.
pub open spec fn alteration(table: Seq<char>, name: Seq<char>, definition: Seq<char>) -> Seq<char> {
    "ALTER TABLE "@ + table + " ADD COLUMN "@ + name + " "@ + definition
}

/// The statements that add the missing ones of the first `count` columns.
pub open spec fn alterations(
    table: Seq<char>,
    present: Seq<String>,
    required: Seq<(&str, &str)>,
    count: int,
) -> Seq<Seq<char>>
    decreases count,
{
    if count <= 0 {
        Seq::empty()
    } else {
        let earlier = alterations(table, present, required, count - 1);
        let (name, definition) = required[count - 1];
        if has_column(present, name@) {
            earlier
        } else {
            earlier.push(alteration(table, name@, definition@))
        }
    }
}

fn is_present(present: &Vec<String>, name: &str) -> (result: bool)
    ensures
        result == has_column(present@, name@),
{
    let mut i: usize = 0;
    while i < present.len()
        invariant
            i <= present@.len(),
            forall|j: int| 0 <= j < i ==> (#[trigger] present@[j])@ != name@,
        decreases present@.len() - i,
    {
        if same(present[i].as_str(), name) {
            return true;
        }
        i = i + 1;
    }
    false
}

/// The statements that add the columns a table lacks, in the order in which they are listed.
pub fn column_alterations(table: &str, present: &Vec<String>, required: &[(&str, &str)]) -> (result:
    Vec<String>)
    ensures
        crate::text::texts_of(result@) == alterations(
            table@,
            present@,
            required@,
            required@.len() as int,
        ),
{
    let mut statements: Vec<String> = Vec::new();
    let mut i: usize = 0;
    proof {
        assert(crate::text::texts_of(statements@) =~= Seq::<Seq<char>>::empty());
    }
    while i < required.len()
        invariant
            i <= required@.len(),
            crate::text::texts_of(statements@) == alterations(
                table@,
                present@,
                required@,
                i as int,
            ),
        decreases required@.len() - i,
    {
        let (name, definition) = required[i];
        if !is_present(present, name) {
            let ghost before = crate::text::texts_of(statements@);
            statements.push(
                "ALTER TABLE ".to_owned().concat(table).concat(" ADD COLUMN ").concat(name).concat(
                    " ",
                ).concat(definition),
            );
            proof {
                assert(crate::text::texts_of(statements@) =~= before.push(
                    alteration(table@, name@, definition@),
                ));
            }
        }
        i = i + 1;
    }
    statements
}

/// Whether the table of trades must be made anew: it still allows one trade per direction
/// whatever the model by which trades are filled.
pub fn trades_need_rebuilding(table_sql: &str) -> (result: bool)
    ensures
        result == (occurs_in(table_sql@, "UNIQUE(slug, direction)"@) && !occurs_in(
            table_sql@,
            "UNIQUE(slug, direction, fill_model)"@,
        )),
{
    contains(table_sql, "UNIQUE(slug, direction)") && !contains(
        table_sql,
        "UNIQUE(slug, direction, fill_model)",
    )
}

/// Once the columns are added, none is missing.
pub proof fn present_columns_need_no_alteration(
    table: Seq<char>,
    present: Seq<String>,
    required: Seq<(&str, &str)>,
    count: int,
)
    requires
        0 <= count <= required.len(),
        forall|i: int| 0 <= i < count ==> has_column(present, (#[trigger] required[i]).0@),
    ensures
        alterations(table, present, required, count).len() == 0,
    decreases count,
{
    if count > 0 {
        present_columns_need_no_alteration(table, present, required, count - 1);
        assert(has_column(present, required[count - 1].0@));
    }
}

/// A column that a table lacks is added by one statement that names the table, the column and its
/// definition, and only such columns are.
pub proof fn missing_columns_are_added(
    table: Seq<char>,
    present: Seq<String>,
    required: Seq<(&str, &str)>,
    count: int,
    statement: Seq<char>,
)
    requires
        0 <= count <= required.len(),
    ensures
        alterations(table, present, required, count).contains(statement) <==> exists|i: int|
            0 <= i < count && (forall|j: int|
                0 <= j < present.len() ==> (#[trigger] present[j])@ != (
                #[trigger] required[i]).0@) && statement == "ALTER TABLE "@ + table
                + " ADD COLUMN "@ + required[i].0@ + " "@ + required[i].1@,
    decreases count,
{
    if count > 0 {
        missing_columns_are_added(table, present, required, count - 1, statement);
        let earlier = alterations(table, present, required, count - 1);
        let all = alterations(table, present, required, count);
        let (name, definition) = required[count - 1];
        let lacks = !has_column(present, name@);
        if lacks {
            assert(all[earlier.len() as int] == alteration(table, name@, definition@));
            if earlier.contains(statement) {
                assert(all[earlier.index_of(statement)] == statement);
            }
            if all.contains(statement) && !earlier.contains(statement) {
                let k = all.index_of(statement);
                if k < earlier.len() {
                    assert(earlier[k] == statement);
                }
            }
        }
    }
}

} // verus!
