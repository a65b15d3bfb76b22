//! The bookmark store: one `bookmarks` table whose rows are read, have their
//! context annotation replaced, or are deleted. Every operation first brings
//! the table's schema up to date.

use vstd::prelude::*;
use crate::order::{lex_lt, text_less, lemma_lex_irreflexive, lemma_lex_transitive, lemma_lex_total};
use crate::schema::{column_names, lemma_migration_idempotent, migrated, migrate_columns};

verus! {

/// A named reference to a node of the outline.
pub struct Bookmark {
    pub name: String,
    pub node_id: String,
    pub context: Option<String>,
    pub created_at: Option<String>,
}

/// A row as stored: a column that holds no text reads as `None`.
pub struct BookmarkRow {
    pub name: Option<String>,
    pub node_id: Option<String>,
    pub context: Option<String>,
    pub created_at: Option<String>,
}

/// The `bookmarks` table: its live column list and its rows.
pub struct BookmarkTable {
    pub columns: Vec<String>,
    pub rows: Vec<BookmarkRow>,
}

/// An existing store file; `table` is `None` when it holds no bookmarks table.
pub struct BookmarkStore {
    pub table: Option<BookmarkTable>,
}

/// Why the schema could not be brought up to date.
pub enum MigrationError {
    MissingTable,
}

/// Why a store operation failed.
pub enum StoreError {
    NotFound,
    Migration(MigrationError),
}

impl StoreError {
    /// The text shown to the user.
    pub open spec fn message_of(&self) -> Seq<char> {
        match self {
            StoreError::NotFound => "Database not found"@,
            StoreError::Migration(_) => "Migration failed: no such table: bookmarks"@,
        }
    }

    /// The text shown to the user.
    pub fn message(&self) -> (r: String)
        ensures
            r@ == self.message_of(),
    {
        match self {
            StoreError::NotFound => String::from_str("Database not found"),
            StoreError::Migration(_) => String::from_str("Migration failed: no such table: bookmarks"),
        }
    }
}

/// The row is named `name`.
pub open spec fn row_named(row: BookmarkRow, name: Seq<char>) -> bool {
    match row.name {
        Some(n) => n@ == name,
        None => false,
    }
}

/// No two rows carry the same name.
pub open spec fn names_unique(rows: Seq<BookmarkRow>) -> bool {
    forall|i: int, j: int|
        0 <= i < rows.len() && 0 <= j < rows.len() && i != j && rows[i].name is Some
            && rows[j].name is Some ==> rows[i].name.unwrap()@ != rows[j].name.unwrap()@
}

impl BookmarkStore {
    /// Names are unique in the table, as its key demands.
    pub open spec fn wf(&self) -> bool {
        match self.table {
            Some(t) => names_unique(t.rows@),
            None => true,
        }
    }
}

/// The row read as a bookmark, or `None` when its name or node id holds no text.
pub open spec fn decode(row: BookmarkRow) -> Option<Bookmark> {
    match (row.name, row.node_id) {
        (Some(n), Some(id)) => Some(
            Bookmark { name: n, node_id: id, context: row.context, created_at: row.created_at },
        ),
        _ => None,
    }
}

/// The row with its context replaced.
pub open spec fn with_context(row: BookmarkRow, context: Option<String>) -> BookmarkRow {
    BookmarkRow { context: context, ..row }
}

/// `after` is `before` with the context of every row named `name` replaced.
pub open spec fn context_updated(
    before: Seq<BookmarkRow>,
    after: Seq<BookmarkRow>,
    name: Seq<char>,
    context: Option<String>,
) -> bool {
    &&& after.len() == before.len()
    &&& forall|i: int|
        0 <= i < before.len() ==> #[trigger] after[i] == if row_named(before[i], name) {
            with_context(before[i], context)
        } else {
            before[i]
        }
}

/// Keeps the rows not named `name`.
pub open spec fn kept(name: Seq<char>) -> spec_fn(BookmarkRow) -> bool {
    |row: BookmarkRow| !row_named(row, name)
}

/// `after`'s column list is `before`'s brought up to date.
pub open spec fn migrated_table(before: BookmarkTable, after: BookmarkTable) -> bool {
    column_names(after.columns@) == migrated(column_names(before.columns@))
}

fn clone_text(t: &Option<String>) -> (r: Option<String>)
    ensures
        r == *t,
{
    match t {
        Some(s) => Some(s.clone()),
        None => None,
    }
}

fn clone_row(row: &BookmarkRow) -> (r: BookmarkRow)
    ensures
        r == *row,
{
    BookmarkRow {
        name: clone_text(&row.name),
        node_id: clone_text(&row.node_id),
        context: clone_text(&row.context),
        created_at: clone_text(&row.created_at),
    }
}

fn is_named(row: &BookmarkRow, name: &str) -> (r: bool)
    ensures
        r == row_named(*row, name@),
{
    match &row.name {
        Some(n) => {
            let wanted = String::from_str(name);
            *n == wanted
        },
        None => false,
    }
}

impl BookmarkStore {
    /// Brings the bookmarks table's schema up to date; fails when the store
    /// holds no bookmarks table.
    pub fn ensure_schema(&mut self) -> (r: Result<(), MigrationError>)
        ensures
            match (old(self).table, final(self).table) {
                (Some(t0), Some(t1)) => r is Ok && migrated_table(t0, t1) && t1.rows == t0.rows,
                (None, None) => r is Err,
                _ => false,
            },
    {
        match &mut self.table {
            Some(t) => {
                migrate_columns(&mut t.columns);
                Ok(())
            },
            None => Err(MigrationError::MissingTable),
        }
    }
}

/// Deletes the bookmark named `name`. Fails when there is no store file or
/// the schema cannot be migrated; a name that matches no row is no error.
pub fn delete_bookmark(store: &mut Option<BookmarkStore>, name: &str) -> (r: Result<(), StoreError>)
    ensures
        match (*old(store), *final(store)) {
            (None, None) => r == Err::<(), StoreError>(StoreError::NotFound),
            (Some(s0), Some(s1)) => match (s0.table, s1.table) {
                (None, None) => r matches Err(StoreError::Migration(_)),
                (Some(t0), Some(t1)) => r is Ok && migrated_table(t0, t1) && t1.rows@ == t0.rows@.filter(kept(name@)),
                _ => false,
            },
            _ => false,
        },
{
    match store {
        None => Err(StoreError::NotFound),
        Some(s) => {
            match s.ensure_schema() {
                Err(e) => Err(StoreError::Migration(e)),
                Ok(()) => {
                    match &mut s.table {
                        None => Err(StoreError::Migration(MigrationError::MissingTable)),
                        Some(t) => {
                            let mut rows: Vec<BookmarkRow> = Vec::new();
                            let mut i: usize = 0;
                            while i < t.rows.len()
                                invariant
                                    i <= t.rows@.len(),
                                    rows@ == t.rows@.take(i as int).filter(kept(name@)),
                                decreases t.rows@.len() - i,
                            {
                                proof {
                                    assert(t.rows@.take(i as int + 1) =~= t.rows@.take(i as int).push(t.rows@[i as int]));
                                    t.rows@.take(i as int).lemma_filter_push(t.rows@[i as int], kept(name@));
                                }
                                if !is_named(&t.rows[i], name) {
                                    rows.push(clone_row(&t.rows[i]));
                                }
                                i = i + 1;
                            }
                            assert(t.rows@.take(i as int) =~= t.rows@);
                            t.rows = rows;
                            Ok(())
                        },
                    }
                },
            }
        },
    }
}

/// Replaces the context of the bookmark named `name`; `None` clears it. Fails
/// when there is no store file or the schema cannot be migrated; a name that
/// matches no row is no error.
pub fn update_bookmark_context(
    store: &mut Option<BookmarkStore>,
    name: &str,
    context: Option<String>,
) -> (r: Result<(), StoreError>)
    ensures
        match (*old(store), *final(store)) {
            (None, None) => r == Err::<(), StoreError>(StoreError::NotFound),
            (Some(s0), Some(s1)) => match (s0.table, s1.table) {
                (None, None) => r matches Err(StoreError::Migration(_)),
                (Some(t0), Some(t1)) => r is Ok && migrated_table(t0, t1)
                    && context_updated(t0.rows@, t1.rows@, name@, context),
                _ => false,
            },
            _ => false,
        },
{
    match store {
        None => Err(StoreError::NotFound),
        Some(s) => {
            match s.ensure_schema() {
                Err(e) => Err(StoreError::Migration(e)),
                Ok(()) => {
                    match &mut s.table {
                        None => Err(StoreError::Migration(MigrationError::MissingTable)),
                        Some(t) => {
                            let mut rows: Vec<BookmarkRow> = Vec::new();
                            let mut i: usize = 0;
                            while i < t.rows.len()
                                invariant
                                    i <= t.rows@.len(),
                                    rows@.len() == i,
                                    forall|k: int| 0 <= k < i ==> #[trigger] rows@[k] == if row_named(t.rows@[k], name@) {
                                        with_context(t.rows@[k], context)
                                    } else {
                                        t.rows@[k]
                                    },
                                decreases t.rows@.len() - i,
                            {
                                let row = &t.rows[i];
                                if is_named(row, name) {
                                    rows.push(BookmarkRow {
                                        name: clone_text(&row.name),
                                        node_id: clone_text(&row.node_id),
                                        context: clone_text(&context),
                                        created_at: clone_text(&row.created_at),
                                    });
                                } else {
                                    rows.push(clone_row(row));
                                }
                                i = i + 1;
                            }
                            t.rows = rows;
                            Ok(())
                        },
                    }
                },
            }
        },
    }
}


/// Bookmarks in ascending order of name; equal names may stand in any order.
pub open spec fn sorted_by_name(s: Seq<Bookmark>) -> bool {
    forall|i: int, j: int| 0 <= i < j < s.len() ==> !lex_lt(s[j].name@, s[i].name@)
}

/// Bookmarks in strictly ascending order of name.
pub open spec fn strictly_sorted_by_name(s: Seq<Bookmark>) -> bool {
    forall|i: int, j: int| 0 <= i < j < s.len() ==> lex_lt(s[i].name@, s[j].name@)
}

/// How many rows read as bookmarks.
pub open spec fn decodable_count(rows: Seq<BookmarkRow>) -> nat
    decreases rows.len(),
{
    if rows.len() == 0 {
        0
    } else {
        decodable_count(rows.drop_last()) + if decode(rows.last()) is Some {
            1nat
        } else {
            0nat
        }
    }
}

/// `out` lists the rows that read as bookmarks, each once, in order of name;
/// the rows that do not read are left out.
pub open spec fn listing_of(rows: Seq<BookmarkRow>, out: Seq<Bookmark>) -> bool {
    &&& out.len() == decodable_count(rows)
    &&& sorted_by_name(out)
    &&& forall|b: Bookmark|
        out.contains(b) <==> exists|j: int| 0 <= j < rows.len() && decode(rows[j]) == Some(b)
    &&& names_unique(rows) ==> strictly_sorted_by_name(out)
}

/// Reads a row as a bookmark.
pub fn decode_row(row: &BookmarkRow) -> (r: Option<Bookmark>)
    ensures
        r == decode(*row),
{
    match (&row.name, &row.node_id) {
        (Some(n), Some(id)) => Some(
            Bookmark {
                name: n.clone(),
                node_id: id.clone(),
                context: clone_text(&row.context),
                created_at: clone_text(&row.created_at),
            },
        ),
        _ => None,
    }
}

proof fn lemma_insert_contains(s: Seq<Bookmark>, p: int, x: Bookmark)
    requires
        0 <= p <= s.len(),
    ensures
        forall|y: Bookmark| #[trigger] s.insert(p, x).contains(y) <==> s.contains(y) || y == x,
{
    s.insert_ensures(p, x);
    let t = s.insert(p, x);
    assert forall|y: Bookmark| t.contains(y) <==> s.contains(y) || y == x by {
        if t.contains(y) {
            let k = choose|k: int| 0 <= k < t.len() && t[k] == y;
            if k < p {
                assert(s[k] == y);
            } else if k > p {
                assert(s[k - 1] == y);
            }
        }
        if s.contains(y) {
            let k = choose|k: int| 0 <= k < s.len() && s[k] == y;
            if k < p {
                assert(t[k] == y);
            } else {
                assert(t[k + 1] == y);
            }
        }
        if y == x {
            assert(t[p] == y);
        }
    }
}

proof fn lemma_insert_sorted(s: Seq<Bookmark>, p: int, x: Bookmark)
    requires
        sorted_by_name(s),
        0 <= p <= s.len(),
        forall|q: int| 0 <= q < p ==> !lex_lt(x.name@, #[trigger] s[q].name@),
        p < s.len() ==> lex_lt(x.name@, s[p].name@),
    ensures
        sorted_by_name(s.insert(p, x)),
{
    s.insert_ensures(p, x);
    assert forall|q: int| p <= q < s.len() implies !lex_lt(#[trigger] s[q].name@, x.name@) by {
        if s[q].name@ != s[p].name@ {
            lemma_lex_total(s[p].name@, s[q].name@);
            lemma_lex_transitive(x.name@, s[p].name@, s[q].name@);
        }
        if lex_lt(s[q].name@, x.name@) {
            lemma_lex_transitive(x.name@, s[q].name@, x.name@);
            lemma_lex_irreflexive(x.name@);
        }
    }
    let t = s.insert(p, x);
    assert forall|i: int, j: int| 0 <= i < j < t.len() implies !lex_lt(t[j].name@, t[i].name@) by {
        if j < p {
            assert(t[i] == s[i] && t[j] == s[j]);
        } else if j == p {
            assert(t[i] == s[i]);
        } else if i < p {
            assert(t[i] == s[i] && t[j] == s[j - 1]);
        } else if i == p {
            assert(t[j] == s[j - 1]);
        } else {
            assert(t[i] == s[i - 1] && t[j] == s[j - 1]);
        }
    }
}

/// Lists the rows that read as bookmarks, in ascending order of name, and
/// leaves out those that do not read.
pub fn sorted_listing(rows: &Vec<BookmarkRow>) -> (r: Vec<Bookmark>)
    ensures
        listing_of(rows@, r@),
{
    let mut out: Vec<Bookmark> = Vec::new();
    let mut i: usize = 0;
    while i < rows.len()
        invariant
            i <= rows@.len(),
            out@.len() == decodable_count(rows@.take(i as int)),
            sorted_by_name(out@),
            forall|b: Bookmark|
                out@.contains(b) ==> exists|j: int| 0 <= j < i && decode(rows@[j]) == Some(b),
            forall|j: int|
                0 <= j < i && (#[trigger] decode(rows@[j])) is Some ==> out@.contains(
                    decode(rows@[j]).unwrap(),
                ),
            names_unique(rows@) ==> strictly_sorted_by_name(out@),
        decreases rows@.len() - i,
    {
        proof {
            assert(rows@.take(i as int + 1).drop_last() =~= rows@.take(i as int));
        }
        match decode_row(&rows[i]) {
            None => {},
            Some(b) => {
                let mut p: usize = 0;
                while p < out.len() && !text_less(b.name.as_str(), out[p].name.as_str())
                    invariant
                        p <= out@.len(),
                        forall|q: int| 0 <= q < p ==> !lex_lt(b.name@, #[trigger] out@[q].name@),
                    decreases out@.len() - p,
                {
                    p = p + 1;
                }
                let ghost before = out@;
                proof {
                    lemma_insert_sorted(before, p as int, b);
                    lemma_insert_contains(before, p as int, b);
                    before.insert_ensures(p as int, b);
                }
                out.insert(p, b);
                proof {
                    let t = out@;
                    assert forall|c: Bookmark|
                        t.contains(c) implies exists|j: int|
                            0 <= j < i + 1 && decode(rows@[j]) == Some(c) by {
                        if c == b {
                            assert(decode(rows@[i as int]) == Some(c));
                        }
                    }
                    if names_unique(rows@) {
                        assert forall|c: Bookmark| before.contains(c) implies c.name@ != b.name@ by {
                            let j = choose|j: int| 0 <= j < i && decode(rows@[j]) == Some(c);
                            assert(rows@[j].name is Some && rows@[i as int].name is Some);
                        }
                        assert forall|k: int, l: int| 0 <= k < l < t.len() implies lex_lt(
                            t[k].name@,
                            t[l].name@,
                        ) by {
                            assert(before.contains(before[k]));
                            if k > p {
                                assert(before.contains(before[k - 1]));
                            }
                            if l > p {
                                assert(before.contains(before[l - 1]));
                            }
                            if l < p {
                                assert(before.contains(before[l]));
                            }
                            if t[k].name@ != t[l].name@ {
                                lemma_lex_total(t[k].name@, t[l].name@);
                            }
                        }
                    }
                }
            },
        }
        i = i + 1;
    }
    proof {
        assert(rows@.take(i as int) =~= rows@);
    }
    out
}

/// Lists the bookmarks of the store in ascending order of name, after
/// bringing its schema up to date. A missing store file lists as empty.
pub fn list_bookmarks(store: &mut Option<BookmarkStore>) -> (r: Result<Vec<Bookmark>, StoreError>)
    ensures
        match (*old(store), *final(store)) {
            (None, None) => (r matches Ok(v) && v@.len() == 0),
            (Some(s0), Some(s1)) => match (s0.table, s1.table) {
                (None, None) => r matches Err(StoreError::Migration(_)),
                (Some(t0), Some(t1)) => migrated_table(t0, t1) && t1.rows == t0.rows && (
                r matches Ok(v) && listing_of(t0.rows@, v@)),
                _ => false,
            },
            _ => false,
        },
{
    match store {
        None => Ok(Vec::new()),
        Some(s) => {
            match s.ensure_schema() {
                Err(e) => Err(StoreError::Migration(e)),
                Ok(()) => {
                    match &s.table {
                        None => Err(StoreError::Migration(MigrationError::MissingTable)),
                        Some(t) => Ok(sorted_listing(&t.rows)),
                    }
                },
            }
        },
    }
}

/// When every row reads as a bookmark, each row is counted.
proof fn lemma_count_all_decodable(rows: Seq<BookmarkRow>)
    requires
        forall|j: int| 0 <= j < rows.len() ==> (#[trigger] decode(rows[j])) is Some,
    ensures
        decodable_count(rows) == rows.len(),
    decreases rows.len(),
{
    if rows.len() > 0 {
        let init = rows.drop_last();
        assert forall|j: int| 0 <= j < init.len() implies (#[trigger] decode(init[j])) is Some by {
            assert(init[j] == rows[j]);
        }
        lemma_count_all_decodable(init);
        assert(decode(rows[rows.len() - 1]) is Some);
    }
}

/// A store of rows with distinct names, each of which reads as a bookmark,
/// lists exactly as many bookmarks as it has rows, in strictly ascending
/// order of name.
pub proof fn lemma_listing_of_distinct_rows(rows: Seq<BookmarkRow>, out: Seq<Bookmark>)
    requires
        names_unique(rows),
        forall|j: int| 0 <= j < rows.len() ==> (#[trigger] decode(rows[j])) is Some,
        listing_of(rows, out),
    ensures
        out.len() == rows.len(),
        strictly_sorted_by_name(out),
{
    lemma_count_all_decodable(rows);
}

/// Deleting a name that no row carries leaves the rows as they were.
pub proof fn lemma_delete_absent_name(rows: Seq<BookmarkRow>, name: Seq<char>)
    requires
        forall|j: int| 0 <= j < rows.len() ==> !row_named(#[trigger] rows[j], name),
    ensures
        rows.filter(kept(name)) == rows,
        rows.filter(kept(name)).len() == rows.len(),
    decreases rows.len(),
{
    if rows.len() > 0 {
        let init = rows.drop_last();
        assert forall|j: int| 0 <= j < init.len() implies !row_named(#[trigger] init[j], name) by {
            assert(init[j] == rows[j]);
        }
        lemma_delete_absent_name(init, name);
        init.lemma_filter_push(rows.last(), kept(name));
        assert(init.push(rows.last()) =~= rows);
        assert(!row_named(rows[rows.len() - 1], name));
    }
}

/// After the context of `name` is cleared, a listing shows no context for
/// any bookmark of that name, and still shows each such bookmark that was
/// there before.
pub proof fn lemma_cleared_context_lists_none(
    before: Seq<BookmarkRow>,
    after: Seq<BookmarkRow>,
    name: Seq<char>,
    out: Seq<Bookmark>,
)
    requires
        context_updated(before, after, name, None),
        listing_of(after, out),
    ensures
        forall|b: Bookmark| out.contains(b) && b.name@ == name ==> b.context is None,
        forall|j: int|
            0 <= j < before.len() && row_named(before[j], name) && #[trigger] decode(before[j]) is Some
                ==> out.contains(
                Bookmark { context: None, ..decode(before[j]).unwrap() },
            ),
{
    assert forall|b: Bookmark| out.contains(b) && b.name@ == name implies b.context is None by {
        let j = choose|j: int| 0 <= j < after.len() && decode(after[j]) == Some(b);
        assert(after[j] == if row_named(before[j], name) {
            with_context(before[j], None)
        } else {
            before[j]
        });
    }
    assert forall|j: int|
        0 <= j < before.len() && row_named(before[j], name) && #[trigger] decode(before[j]) is Some
            implies out.contains(Bookmark { context: None, ..decode(before[j]).unwrap() }) by {
        assert(after[j] == with_context(before[j], None));
        assert(decode(after[j]) == Some(Bookmark { context: None, ..decode(before[j]).unwrap() }));
    }
}

/// Bringing the schema up to date twice in a row: the second time leaves
/// the column list as the first left it.
pub proof fn lemma_second_migration_is_noop(t0: BookmarkTable, t1: BookmarkTable, t2: BookmarkTable)
    requires
        migrated_table(t0, t1),
        migrated_table(t1, t2),
    ensures
        column_names(t2.columns@) == column_names(t1.columns@),
{
    lemma_migration_idempotent(column_names(t0.columns@));
}

} // verus!
