//! The schema migrator: adds the nullable `context` column to the bookmarks
//! table when the table's live column list lacks it.

use vstd::prelude::*;

verus! {

/// The names of a column list.
pub open spec fn column_names(columns: Seq<String>) -> Seq<Seq<char>> {
    columns.map_values(|c: String| c@)
}

/// The column list after migration: `context` appended when absent.
pub open spec fn migrated(names: Seq<Seq<char>>) -> Seq<Seq<char>> {
    if names.contains("context"@) {
        names
    } else {
        names.push("context"@)
    }
}

/// Migrating an already migrated column list changes nothing.
pub proof fn lemma_migration_idempotent(names: Seq<Seq<char>>)
    ensures
        migrated(migrated(names)) == migrated(names),
{
    if !names.contains("context"@) {
        let m = names.push("context"@);
        assert(m[m.len() - 1] == "context"@);
    }
}

/// Whether the column list names `context`.
pub fn has_context_column(columns: &Vec<String>) -> (r: bool)
    ensures
        r == column_names(columns@).contains("context"@),
{
    let wanted = String::from_str("context");
    let mut i: usize = 0;
    while i < columns.len()
        invariant
            i <= columns@.len(),
            wanted@ == "context"@,
            forall|k: int| 0 <= k < i ==> columns@[k]@ != "context"@,
        decreases columns@.len() - i,
    {
        if columns[i] == wanted {
            assert(column_names(columns@)[i as int] == "context"@);
            return true;
        }
        i = i + 1;
    }
    proof {
        if column_names(columns@).contains("context"@) {
            let k = choose|k: int|
                0 <= k < column_names(columns@).len() && column_names(columns@)[k] == "context"@;
            assert(columns@[k]@ == "context"@);
        }
    }
    false
}

/// Adds the `context` column to `columns` unless it is already there.
pub fn migrate_columns(columns: &mut Vec<String>)
    ensures
        column_names(final(columns)@) == migrated(column_names(old(columns)@)),
{
    if !has_context_column(columns) {
        let c = String::from_str("context");
        columns.push(c);
        assert(column_names(final(columns)@) =~= column_names(old(columns)@).push("context"@));
    }
}

} // verus!
