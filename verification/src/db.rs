//! The schema model: tables, columns, primary keys and foreign keys.

use vstd::prelude::*;

use crate::text::str_eq;

verus! {

/// A single column of a table.
#[derive(Debug, Clone)]
pub struct Column {
    pub name: String,
    pub data_type: String,
    pub is_primary_key: bool,
    pub is_foreign_key: bool,
    /// True when this foreign key references the column's own table.
    pub is_self_foreign_key: bool,
}

/// The mathematical value of a [`Column`].
pub struct ColumnView {
    pub name: Seq<char>,
    pub data_type: Seq<char>,
    pub is_primary_key: bool,
    pub is_foreign_key: bool,
    pub is_self_foreign_key: bool,
}

impl View for Column {
    type V = ColumnView;

    open spec fn view(&self) -> ColumnView {
        ColumnView {
            name: self.name@,
            data_type: self.data_type@,
            is_primary_key: self.is_primary_key,
            is_foreign_key: self.is_foreign_key,
            is_self_foreign_key: self.is_self_foreign_key,
        }
    }
}

/// A base table (relation).
#[derive(Debug, Clone)]
pub struct Table {
    pub schema: String,
    pub name: String,
    pub columns: Vec<Column>,
}

/// The mathematical value of a [`Table`].
pub struct TableView {
    pub schema: Seq<char>,
    pub name: Seq<char>,
    pub columns: Seq<ColumnView>,
}

pub open spec fn column_views(columns: Seq<Column>) -> Seq<ColumnView> {
    columns.map_values(|c: Column| c@)
}

impl View for Table {
    type V = TableView;

    open spec fn view(&self) -> TableView {
        TableView { schema: self.schema@, name: self.name@, columns: column_views(self.columns@) }
    }
}

impl Table {
    /// Fully-qualified identifier used as the node key.
    pub fn key(&self) -> (k: (String, String))
        ensures
            k.0@ == self.schema@,
            k.1@ == self.name@,
    {
        (self.schema.clone(), self.name.clone())
    }
}


/// A foreign key constraint: `from_table.from_columns` references
/// `to_table`.
#[derive(Debug, Clone)]
pub struct ForeignKey {
    pub from_schema: String,
    pub from_table: String,
    pub to_schema: String,
    pub to_table: String,
    pub from_columns: Vec<String>,
}

/// The mathematical value of a [`ForeignKey`].
pub struct ForeignKeyView {
    pub from_schema: Seq<char>,
    pub from_table: Seq<char>,
    pub to_schema: Seq<char>,
    pub to_table: Seq<char>,
    pub from_columns: Seq<Seq<char>>,
}

pub open spec fn string_views(strings: Seq<String>) -> Seq<Seq<char>> {
    strings.map_values(|s: String| s@)
}

impl View for ForeignKey {
    type V = ForeignKeyView;

    open spec fn view(&self) -> ForeignKeyView {
        ForeignKeyView {
            from_schema: self.from_schema@,
            from_table: self.from_table@,
            to_schema: self.to_schema@,
            to_table: self.to_table@,
            from_columns: string_views(self.from_columns@),
        }
    }
}

impl ForeignKeyView {
    /// The constraint references its own table.
    pub open spec fn is_self(self) -> bool {
        self.from_schema == self.to_schema && self.from_table == self.to_table
    }
}

impl ForeignKey {
    /// True when the constraint references its own table.
    pub fn is_self(&self) -> (b: bool)
        ensures
            b == self@.is_self(),
    {
        self.from_schema == self.to_schema && self.from_table == self.to_table
    }
}

/// The full schema model consumed by the ERD renderer.
#[derive(Debug, Clone)]
pub struct Schema {
    pub tables: Vec<Table>,
    pub foreign_keys: Vec<ForeignKey>,
}

/// The mathematical value of a [`Schema`].
pub struct SchemaView {
    pub tables: Seq<TableView>,
    pub foreign_keys: Seq<ForeignKeyView>,
}

pub open spec fn table_views(tables: Seq<Table>) -> Seq<TableView> {
    tables.map_values(|t: Table| t@)
}

pub open spec fn foreign_key_views(fks: Seq<ForeignKey>) -> Seq<ForeignKeyView> {
    fks.map_values(|f: ForeignKey| f@)
}

impl View for Schema {
    type V = SchemaView;

    open spec fn view(&self) -> SchemaView {
        SchemaView {
            tables: table_views(self.tables@),
            foreign_keys: foreign_key_views(self.foreign_keys@),
        }
    }
}

/// Which flags a key constraint sets on the columns it names.
#[derive(Debug, Clone, Copy, PartialEq, Eq)]
pub enum ColumnMark {
    /// The column belongs to the table's primary key.
    PrimaryKey,
    /// The column belongs to a foreign key; `self_reference` when that
    /// foreign key references the column's own table.
    ForeignKey { self_reference: bool },
}

/// A column after the flags of `mark` are set on it.
pub open spec fn marked(c: ColumnView, mark: ColumnMark) -> ColumnView {
    match mark {
        ColumnMark::PrimaryKey => ColumnView { is_primary_key: true, ..c },
        ColumnMark::ForeignKey { self_reference } => ColumnView {
            is_foreign_key: true,
            is_self_foreign_key: c.is_self_foreign_key || self_reference,
            ..c
        },
    }
}

/// Set the flags of `mark` on every column of `table` named `column_name`.
pub fn mark_column(table: &mut Table, column_name: &str, mark: ColumnMark)
    ensures
        final(table).schema@ == old(table).schema@,
        final(table).name@ == old(table).name@,
        final(table).columns@.len() == old(table).columns@.len(),
        forall|i: int|
            0 <= i < old(table).columns@.len() ==> (#[trigger] final(table).columns@[i])@ == if old(
                table,
            ).columns@[i].name@ == column_name@ {
                marked(old(table).columns@[i]@, mark)
            } else {
                old(table).columns@[i]@
            },
{
    let n = table.columns.len();
    let mut i: usize = 0;
    while i < n
        invariant
            n == old(table).columns@.len(),
            table.columns@.len() == n,
            table.schema@ == old(table).schema@,
            table.name@ == old(table).name@,
            0 <= i <= n,
            forall|j: int|
                0 <= j < i ==> (#[trigger] table.columns@[j])@ == if old(table).columns@[j].name@
                    == column_name@ {
                    marked(old(table).columns@[j]@, mark)
                } else {
                    old(table).columns@[j]@
                },
            forall|j: int| i <= j < n ==> #[trigger] table.columns@[j] == old(table).columns@[j],
        decreases n - i,
    {
        if str_eq(table.columns[i].name.as_str(), column_name) {
            match mark {
                ColumnMark::PrimaryKey => {
                    table.columns[i].is_primary_key = true;
                },
                ColumnMark::ForeignKey { self_reference } => {
                    table.columns[i].is_foreign_key = true;
                    if self_reference {
                        table.columns[i].is_self_foreign_key = true;
                    }
                },
            }
        }
        i = i + 1;
    }
}


/// One row of the column query: a column of a base table, in declaration
/// order.
pub struct ColumnRow {
    pub schema: String,
    pub table: String,
    pub column: String,
    pub data_type: String,
}

/// One row of the primary-key query: a column that belongs to the primary
/// key of its table.
pub struct PrimaryKeyRow {
    pub schema: String,
    pub table: String,
    pub column: String,
}

/// One row of the foreign-key query. `from_columns` is absent when the
/// database reported no column list for the constraint.
pub struct ForeignKeyRow {
    pub from_schema: String,
    pub from_table: String,
    pub to_schema: String,
    pub to_table: String,
    pub from_columns: Option<Vec<String>>,
}

/// The key (schema, table name) that identifies a table.
pub type TableKey = (Seq<char>, Seq<char>);

pub open spec fn row_key(r: ColumnRow) -> TableKey {
    (r.schema@, r.table@)
}

pub open spec fn table_key(t: TableView) -> TableKey {
    (t.schema, t.name)
}

/// The distinct table keys of the first `n` column rows, in order of first
/// appearance.
pub open spec fn table_keys(rows: Seq<ColumnRow>, n: int) -> Seq<TableKey>
    decreases n,
{
    if n <= 0 {
        seq![]
    } else {
        let keys = table_keys(rows, n - 1);
        let k = row_key(rows[n - 1]);
        if keys.contains(k) {
            keys
        } else {
            keys.push(k)
        }
    }
}

/// The rows among the first `n` column rows that belong to table `key`, in
/// order.
pub open spec fn rows_of(rows: Seq<ColumnRow>, n: int, key: TableKey) -> Seq<ColumnRow>
    decreases n,
{
    if n <= 0 {
        seq![]
    } else {
        let prev = rows_of(rows, n - 1, key);
        if row_key(rows[n - 1]) == key {
            prev.push(rows[n - 1])
        } else {
            prev
        }
    }
}

/// Some of the first `n` primary-key rows names column `column` of table `key`.
pub open spec fn primary_key_marked(
    pks: Seq<PrimaryKeyRow>,
    n: int,
    key: TableKey,
    column: Seq<char>,
) -> bool {
    exists|j: int|
        0 <= j < n && j < pks.len() && (#[trigger] pks[j]).schema@ == key.0 && pks[j].table@
            == key.1 && pks[j].column@ == column
}

/// The column names of a foreign-key row; none when the list is absent.
pub open spec fn fk_row_columns(r: ForeignKeyRow) -> Seq<Seq<char>> {
    match r.from_columns {
        Some(v) => string_views(v@),
        None => seq![],
    }
}

pub open spec fn fk_row_is_self(r: ForeignKeyRow) -> bool {
    r.from_schema@ == r.to_schema@ && r.from_table@ == r.to_table@
}

/// Some of the first `n` foreign-key rows leaves table `key` from column
/// `column` (and, when `self_only`, references table `key` itself).
pub open spec fn foreign_key_marked(
    fks: Seq<ForeignKeyRow>,
    n: int,
    key: TableKey,
    column: Seq<char>,
    self_only: bool,
) -> bool {
    exists|j: int|
        0 <= j < n && j < fks.len() && (#[trigger] fks[j]).from_schema@ == key.0
            && fks[j].from_table@ == key.1 && fk_row_columns(fks[j]).contains(column) && (
        self_only ==> fk_row_is_self(fks[j]))
}

/// The column that a column row becomes once the first `npk` primary-key
/// rows and the first `nfk` foreign-key rows have marked it.
pub open spec fn loaded_column(
    r: ColumnRow,
    pks: Seq<PrimaryKeyRow>,
    npk: int,
    fks: Seq<ForeignKeyRow>,
    nfk: int,
) -> ColumnView {
    ColumnView {
        name: r.column@,
        data_type: r.data_type@,
        is_primary_key: primary_key_marked(pks, npk, row_key(r), r.column@),
        is_foreign_key: foreign_key_marked(fks, nfk, row_key(r), r.column@, false),
        is_self_foreign_key: foreign_key_marked(fks, nfk, row_key(r), r.column@, true),
    }
}

/// The `p`-th table built from the first `n` column rows, marked by the
/// first `npk` primary-key rows and the first `nfk` foreign-key rows.
pub open spec fn loaded_table(
    rows: Seq<ColumnRow>,
    n: int,
    p: int,
    pks: Seq<PrimaryKeyRow>,
    npk: int,
    fks: Seq<ForeignKeyRow>,
    nfk: int,
) -> TableView {
    let key = table_keys(rows, n)[p];
    TableView {
        schema: key.0,
        name: key.1,
        columns: rows_of(rows, n, key).map_values(|r: ColumnRow| loaded_column(r, pks, npk, fks, nfk)),
    }
}

/// The foreign key that a foreign-key row becomes.
pub open spec fn loaded_foreign_key(r: ForeignKeyRow) -> ForeignKeyView {
    ForeignKeyView {
        from_schema: r.from_schema@,
        from_table: r.from_table@,
        to_schema: r.to_schema@,
        to_table: r.to_table@,
        from_columns: fk_row_columns(r),
    }
}

/// The schema that the three queries' rows describe: one table per distinct
/// (schema, table) of the column rows, in order of first appearance, with its
/// columns in row order; a column is a primary key when a primary-key row
/// names it, a foreign key when a foreign-key row from its table lists it,
/// and a self-referencing foreign key when such a row also references its own
/// table; one foreign key per foreign-key row, in order.
pub open spec fn loaded_schema(
    rows: Seq<ColumnRow>,
    pks: Seq<PrimaryKeyRow>,
    fks: Seq<ForeignKeyRow>,
) -> SchemaView {
    SchemaView {
        tables: Seq::new(
            table_keys(rows, rows.len() as int).len(),
            |p: int| loaded_table(rows, rows.len() as int, p, pks, pks.len() as int, fks, fks.len() as int),
        ),
        foreign_keys: fks.map_values(|r: ForeignKeyRow| loaded_foreign_key(r)),
    }
}


/// The tables in `tables` are those built from the first `n` column rows,
/// marked by the first `npk` primary-key rows and `nfk` foreign-key rows.
pub open spec fn tables_match(
    tables: Seq<Table>,
    rows: Seq<ColumnRow>,
    n: int,
    pks: Seq<PrimaryKeyRow>,
    npk: int,
    fks: Seq<ForeignKeyRow>,
    nfk: int,
) -> bool {
    let keys = table_keys(rows, n);
    &&& tables.len() == keys.len()
    &&& forall|p: int|
        0 <= p < tables.len() ==> {
            &&& (#[trigger] tables[p]).schema@ == keys[p].0
            &&& tables[p].name@ == keys[p].1
            &&& tables[p].columns@.len() == rows_of(rows, n, keys[p]).len()
            &&& forall|c: int|
                0 <= c < tables[p].columns@.len() ==> (#[trigger] tables[p].columns@[c])@
                    == loaded_column(rows_of(rows, n, keys[p])[c], pks, npk, fks, nfk)
        }
}

/// The table keys of a prefix of the rows are distinct, and a key that is
/// not among them has no rows in that prefix.
proof fn lemma_table_keys(rows: Seq<ColumnRow>, n: int)
    requires
        0 <= n <= rows.len(),
    ensures
        table_keys(rows, n).no_duplicates(),
        forall|k: TableKey| !table_keys(rows, n).contains(k) ==> rows_of(rows, n, k).len() == 0,
    decreases n,
{
    if n > 0 {
        lemma_table_keys(rows, n - 1);
        let keys = table_keys(rows, n - 1);
        let k = row_key(rows[n - 1]);
        if !keys.contains(k) {
            assert forall|i: int, j: int|
                0 <= i < keys.push(k).len() && 0 <= j < keys.push(k).len() && i != j implies keys.push(
                k,
            )[i] != keys.push(k)[j] by {
                if i < keys.len() && j < keys.len() {
                } else if i == keys.len() {
                    assert(keys.contains(keys[j]));
                } else {
                    assert(keys.contains(keys[i]));
                }
            }
        }
        assert(table_keys(rows, n).contains(k)) by {
            if !keys.contains(k) {
                assert(keys.push(k)[keys.len() as int] == k);
            }
        }
        assert forall|k2: TableKey| !table_keys(rows, n).contains(k2) implies rows_of(
            rows,
            n,
            k2,
        ).len() == 0 by {
            if keys.contains(k2) {
                let i = choose|i: int| 0 <= i < keys.len() && keys[i] == k2;
                if !keys.contains(k) {
                    assert(keys.push(k)[i] == k2);
                }
                assert(table_keys(rows, n)[i] == k2);
            }
        }
    }
}

/// The position of the table with the given key, if any.
fn find_table(tables: &Vec<Table>, schema: &String, name: &String) -> (r: Option<usize>)
    ensures
        match r {
            Some(p) => p < tables@.len() && tables@[p as int].schema@ == schema@
                && tables@[p as int].name@ == name@,
            None => forall|p: int|
                0 <= p < tables@.len() ==> (#[trigger] tables@[p]).schema@ != schema@
                    || tables@[p].name@ != name@,
        },
{
    let mut i: usize = 0;
    while i < tables.len()
        invariant
            0 <= i <= tables@.len(),
            forall|p: int|
                0 <= p < i ==> (#[trigger] tables@[p]).schema@ != schema@
                    || tables@[p].name@ != name@,
        decreases tables@.len() - i,
    {
        if tables[i].schema == *schema && tables[i].name == *name {
            return Some(i);
        }
        i = i + 1;
    }
    None
}

/// Group the column rows into tables, in order of first appearance.
fn group_columns(rows: &Vec<ColumnRow>, Ghost(pks): Ghost<Seq<PrimaryKeyRow>>, Ghost(fks): Ghost<Seq<ForeignKeyRow>>) -> (tables: Vec<Table>)
    ensures
        tables_match(tables@, rows@, rows@.len() as int, pks, 0, fks, 0),
{
    let mut tables: Vec<Table> = Vec::new();
    let mut i: usize = 0;
    while i < rows.len()
        invariant
            0 <= i <= rows@.len(),
            tables_match(tables@, rows@, i as int, pks, 0, fks, 0),
        decreases rows@.len() - i,
    {
        let r = &rows[i];
        let column = Column {
            name: r.column.clone(),
            data_type: r.data_type.clone(),
            is_primary_key: false,
            is_foreign_key: false,
            is_self_foreign_key: false,
        };
        let ghost keys = table_keys(rows@, i as int);
        let ghost k = row_key(rows@[i as int]);
        proof {
            lemma_table_keys(rows@, i as int);
        }
        let ghost old_tables = tables@;
        match find_table(&tables, &r.schema, &r.table) {
            Some(p) => {
                assert(keys[p as int] == k);
                assert(keys.contains(k));
                tables[p].columns.push(column);
                proof {
                    let keys2 = table_keys(rows@, i + 1);
                    assert(keys2 == keys);
                    assert forall|q: int| 0 <= q < tables@.len() && q != p implies keys[q] != k by {
                        assert(keys[q] != keys[p as int]);
                    }
                    assert forall|q: int| 0 <= q < tables@.len() implies rows_of(rows@, i + 1, keys[q]) == if q == p {
                        rows_of(rows@, i as int, keys[q]).push(rows@[i as int])
                    } else {
                        rows_of(rows@, i as int, keys[q])
                    } by {
                    }
                    assert forall|q: int| 0 <= q < tables@.len() implies #[trigger] tables@[q] == if q == p {
                        tables@[q]
                    } else {
                        old_tables[q]
                    } by {
                    }
                }
            },
            None => {
                assert forall|q: int| 0 <= q < keys.len() implies keys[q] != k by {
                    assert(tables@[q].schema@ == keys[q].0);
                }
                assert(!keys.contains(k));
                let mut columns: Vec<Column> = Vec::new();
                columns.push(column);
                tables.push(
                    Table { schema: r.schema.clone(), name: r.table.clone(), columns: columns },
                );
                proof {
                    let keys2 = table_keys(rows@, i + 1);
                    assert(keys2 == keys.push(k));
                    assert(rows_of(rows@, i as int, k).len() == 0);
                    assert(rows_of(rows@, i + 1, k) =~= seq![rows@[i as int]]);
                    assert forall|q: int| 0 <= q < keys.len() implies keys[q] != k by {
                        assert(keys.contains(keys[q]));
                    }
                }
            },
        }
        i = i + 1;
    }
    tables
}


/// Every row of `rows_of(rows, n, key)` belongs to table `key`.
proof fn lemma_rows_of_key(rows: Seq<ColumnRow>, n: int, key: TableKey)
    ensures
        forall|c: int|
            0 <= c < rows_of(rows, n, key).len() ==> row_key(#[trigger] rows_of(rows, n, key)[c])
                == key,
    decreases n,
{
    if n > 0 {
        lemma_rows_of_key(rows, n - 1, key);
        let prev = rows_of(rows, n - 1, key);
        assert forall|c: int| 0 <= c < rows_of(rows, n, key).len() implies row_key(
            #[trigger] rows_of(rows, n, key)[c],
        ) == key by {
            if c < prev.len() {
                assert(rows_of(rows, n, key)[c] == prev[c]);
            }
        }
    }
}

proof fn lemma_primary_key_step(pks: Seq<PrimaryKeyRow>, j: int, key: TableKey, column: Seq<char>)
    requires
        0 <= j < pks.len(),
    ensures
        primary_key_marked(pks, j + 1, key, column) == (primary_key_marked(pks, j, key, column) || (
        pks[j].schema@ == key.0 && pks[j].table@ == key.1 && pks[j].column@ == column)),
{
    if primary_key_marked(pks, j + 1, key, column) {
        let w = choose|w: int|
            0 <= w < j + 1 && w < pks.len() && (#[trigger] pks[w]).schema@ == key.0 && pks[w].table@
                == key.1 && pks[w].column@ == column;
        if w < j {
            assert(primary_key_marked(pks, j, key, column));
        }
    }
}

/// Mark the primary-key columns named by the primary-key rows.
fn mark_primary_keys(
    tables: &mut Vec<Table>,
    pks: &Vec<PrimaryKeyRow>,
    Ghost(rows): Ghost<Seq<ColumnRow>>,
    Ghost(fks): Ghost<Seq<ForeignKeyRow>>,
)
    requires
        tables_match(old(tables)@, rows, rows.len() as int, pks@, 0, fks, 0),
    ensures
        tables_match(final(tables)@, rows, rows.len() as int, pks@, pks@.len() as int, fks, 0),
{
    let ghost n = rows.len() as int;
    let ghost keys = table_keys(rows, n);
    proof {
        lemma_table_keys(rows, n);
    }
    let mut j: usize = 0;
    while j < pks.len()
        invariant
            0 <= j <= pks@.len(),
            n == rows.len(),
            keys == table_keys(rows, n),
            keys.no_duplicates(),
            tables_match(tables@, rows, n, pks@, j as int, fks, 0),
        decreases pks@.len() - j,
    {
        let pk = &pks[j];
        let ghost old_tables = tables@;
        let ghost pk_key: TableKey = (pk.schema@, pk.table@);
        match find_table(tables, &pk.schema, &pk.table) {
            Some(p) => {
                mark_column(&mut tables[p], pk.column.as_str(), ColumnMark::PrimaryKey);
                proof {
                    assert(keys[p as int] == pk_key);
                    assert forall|q: int| 0 <= q < tables@.len() implies {
                        &&& (#[trigger] tables@[q]).schema@ == keys[q].0
                        &&& tables@[q].name@ == keys[q].1
                        &&& tables@[q].columns@.len() == rows_of(rows, n, keys[q]).len()
                        &&& forall|c: int|
                            0 <= c < tables@[q].columns@.len() ==> (#[trigger] tables@[q].columns@[c])@
                                == loaded_column(rows_of(rows, n, keys[q])[c], pks@, j + 1, fks, 0)
                    } by {
                        lemma_rows_of_key(rows, n, keys[q]);
                        if q != p {
                            assert(keys[q] != keys[p as int]);
                        }
                        assert forall|c: int| 0 <= c < tables@[q].columns@.len() implies (
                        #[trigger] tables@[q].columns@[c])@ == loaded_column(
                            rows_of(rows, n, keys[q])[c],
                            pks@,
                            j + 1,
                            fks,
                            0,
                        ) by {
                            let r = rows_of(rows, n, keys[q])[c];
                            lemma_primary_key_step(pks@, j as int, row_key(r), r.column@);
                            assert(old_tables[q].columns@[c]@ == loaded_column(r, pks@, j as int, fks, 0));
                        }
                    }
                }
            },
            None => {
                proof {
                    assert forall|q: int| 0 <= q < tables@.len() implies {
                        &&& (#[trigger] tables@[q]).schema@ == keys[q].0
                        &&& tables@[q].name@ == keys[q].1
                        &&& tables@[q].columns@.len() == rows_of(rows, n, keys[q]).len()
                        &&& forall|c: int|
                            0 <= c < tables@[q].columns@.len() ==> (#[trigger] tables@[q].columns@[c])@
                                == loaded_column(rows_of(rows, n, keys[q])[c], pks@, j + 1, fks, 0)
                    } by {
                        lemma_rows_of_key(rows, n, keys[q]);
                        assert forall|c: int| 0 <= c < tables@[q].columns@.len() implies (
                        #[trigger] tables@[q].columns@[c])@ == loaded_column(
                            rows_of(rows, n, keys[q])[c],
                            pks@,
                            j + 1,
                            fks,
                            0,
                        ) by {
                            let r = rows_of(rows, n, keys[q])[c];
                            lemma_primary_key_step(pks@, j as int, row_key(r), r.column@);
                        }
                    }
                }
            },
        }
        j = j + 1;
    }
}


proof fn lemma_foreign_key_step(
    fks: Seq<ForeignKeyRow>,
    j: int,
    key: TableKey,
    column: Seq<char>,
    self_only: bool,
)
    requires
        0 <= j < fks.len(),
    ensures
        foreign_key_marked(fks, j + 1, key, column, self_only) == (foreign_key_marked(
            fks,
            j,
            key,
            column,
            self_only,
        ) || (fks[j].from_schema@ == key.0 && fks[j].from_table@ == key.1 && fk_row_columns(
            fks[j],
        ).contains(column) && (self_only ==> fk_row_is_self(fks[j])))),
{
    if foreign_key_marked(fks, j + 1, key, column, self_only) {
        let w = choose|w: int|
            0 <= w < j + 1 && w < fks.len() && (#[trigger] fks[w]).from_schema@ == key.0
                && fks[w].from_table@ == key.1 && fk_row_columns(fks[w]).contains(column) && (
            self_only ==> fk_row_is_self(fks[w]));
        if w < j {
            assert(foreign_key_marked(fks, j, key, column, self_only));
        }
    }
}

/// Whether the first `j` foreign-key rows, and the first `m` columns listed
/// by row `j`, mark column `column` of table `key`.
pub open spec fn foreign_key_partly_marked(
    fks: Seq<ForeignKeyRow>,
    j: int,
    m: int,
    key: TableKey,
    column: Seq<char>,
    self_only: bool,
) -> bool {
    foreign_key_marked(fks, j, key, column, self_only) || (fks[j].from_schema@ == key.0
        && fks[j].from_table@ == key.1 && fk_row_columns(fks[j]).take(m).contains(column) && (
    self_only ==> fk_row_is_self(fks[j])))
}

pub open spec fn partly_loaded_column(
    r: ColumnRow,
    pks: Seq<PrimaryKeyRow>,
    fks: Seq<ForeignKeyRow>,
    j: int,
    m: int,
) -> ColumnView {
    ColumnView {
        name: r.column@,
        data_type: r.data_type@,
        is_primary_key: primary_key_marked(pks, pks.len() as int, row_key(r), r.column@),
        is_foreign_key: foreign_key_partly_marked(fks, j, m, row_key(r), r.column@, false),
        is_self_foreign_key: foreign_key_partly_marked(fks, j, m, row_key(r), r.column@, true),
    }
}

pub open spec fn tables_partly_match(
    tables: Seq<Table>,
    rows: Seq<ColumnRow>,
    n: int,
    pks: Seq<PrimaryKeyRow>,
    fks: Seq<ForeignKeyRow>,
    j: int,
    m: int,
) -> bool {
    let keys = table_keys(rows, n);
    &&& tables.len() == keys.len()
    &&& forall|p: int|
        0 <= p < tables.len() ==> {
            &&& (#[trigger] tables[p]).schema@ == keys[p].0
            &&& tables[p].name@ == keys[p].1
            &&& tables[p].columns@.len() == rows_of(rows, n, keys[p]).len()
            &&& forall|c: int|
                0 <= c < tables[p].columns@.len() ==> (#[trigger] tables[p].columns@[c])@
                    == partly_loaded_column(rows_of(rows, n, keys[p])[c], pks, fks, j, m)
        }
}

/// A copy of a list of strings.
fn copy_strings(v: &Vec<String>) -> (r: Vec<String>)
    ensures
        string_views(r@) == string_views(v@),
{
    let mut r: Vec<String> = Vec::new();
    let mut i: usize = 0;
    while i < v.len()
        invariant
            0 <= i <= v@.len(),
            r@.len() == i,
            forall|k: int| 0 <= k < i ==> (#[trigger] r@[k])@ == v@[k]@,
        decreases v@.len() - i,
    {
        r.push(v[i].clone());
        i = i + 1;
    }
    assert(string_views(r@) =~= string_views(v@));
    r
}

/// Mark the columns of one table listed by foreign-key row `j`.
fn mark_listed_columns(
    table: &mut Table,
    columns: &Vec<String>,
    self_reference: bool,
    Ghost(rows): Ghost<Seq<ColumnRow>>,
    Ghost(pks): Ghost<Seq<PrimaryKeyRow>>,
    Ghost(fks): Ghost<Seq<ForeignKeyRow>>,
    Ghost(j): Ghost<int>,
    Ghost(key): Ghost<TableKey>,
)
    requires
        0 <= j < fks.len(),
        fks[j].from_schema@ == key.0,
        fks[j].from_table@ == key.1,
        self_reference == fk_row_is_self(fks[j]),
        fk_row_columns(fks[j]) == string_views(columns@),
        old(table).schema@ == key.0,
        old(table).name@ == key.1,
        old(table).columns@.len() == rows_of(rows, rows.len() as int, key).len(),
        forall|c: int|
            0 <= c < old(table).columns@.len() ==> (#[trigger] old(table).columns@[c])@
                == partly_loaded_column(rows_of(rows, rows.len() as int, key)[c], pks, fks, j, 0),
    ensures
        final(table).schema@ == key.0,
        final(table).name@ == key.1,
        final(table).columns@.len() == rows_of(rows, rows.len() as int, key).len(),
        forall|c: int|
            0 <= c < final(table).columns@.len() ==> (#[trigger] final(table).columns@[c])@
                == partly_loaded_column(
                rows_of(rows, rows.len() as int, key)[c],
                pks,
                fks,
                j,
                columns@.len() as int,
            ),
{
    let ghost n = rows.len() as int;
    proof {
        lemma_rows_of_key(rows, n, key);
    }
    let mut m: usize = 0;
    while m < columns.len()
        invariant
            0 <= m <= columns@.len(),
            0 <= j < fks.len(),
            n == rows.len(),
            fks[j].from_schema@ == key.0,
            fks[j].from_table@ == key.1,
            self_reference == fk_row_is_self(fks[j]),
            fk_row_columns(fks[j]) == string_views(columns@),
            forall|c: int|
                0 <= c < rows_of(rows, n, key).len() ==> row_key(#[trigger] rows_of(rows, n, key)[c])
                    == key,
            table.schema@ == key.0,
            table.name@ == key.1,
            table.columns@.len() == rows_of(rows, n, key).len(),
            forall|c: int|
                0 <= c < table.columns@.len() ==> (#[trigger] table.columns@[c])@
                    == partly_loaded_column(rows_of(rows, n, key)[c], pks, fks, j, m as int),
        decreases columns@.len() - m,
    {
        let ghost before = table.columns@;
        mark_column(table, columns[m].as_str(), ColumnMark::ForeignKey { self_reference });
        proof {
            let listed = fk_row_columns(fks[j]);
            assert(listed.take(m + 1) =~= listed.take(m as int).push(columns@[m as int]@));
            assert forall|c: int| 0 <= c < table.columns@.len() implies (
            #[trigger] table.columns@[c])@ == partly_loaded_column(
                rows_of(rows, n, key)[c],
                pks,
                fks,
                j,
                m + 1,
            ) by {
                let r = rows_of(rows, n, key)[c];
                let x = r.column@;
                assert(before[c]@ == partly_loaded_column(r, pks, fks, j, m as int));
                assert(row_key(r) == key);
                assert(listed[m as int] == columns@[m as int]@);
                let t0 = listed.take(m as int);
                let t1 = listed.take(m + 1);
                if t0.contains(x) {
                    let i = choose|i: int| 0 <= i < t0.len() && t0[i] == x;
                    assert(t1[i] == x);
                }
                if x == columns@[m as int]@ {
                    assert(t1[m as int] == x);
                }
                assert(t1.contains(x) == (t0.contains(x) || x == columns@[m as int]@));
            }
        }
        m = m + 1;
    }
}


/// Mark the foreign-key columns listed by the foreign-key rows, and collect
/// one foreign key per row.
fn mark_foreign_keys(
    tables: &mut Vec<Table>,
    fks: &Vec<ForeignKeyRow>,
    Ghost(rows): Ghost<Seq<ColumnRow>>,
    Ghost(pks): Ghost<Seq<PrimaryKeyRow>>,
) -> (foreign_keys: Vec<ForeignKey>)
    requires
        tables_match(old(tables)@, rows, rows.len() as int, pks, pks.len() as int, fks@, 0),
    ensures
        tables_match(
            final(tables)@,
            rows,
            rows.len() as int,
            pks,
            pks.len() as int,
            fks@,
            fks@.len() as int,
        ),
        foreign_keys@.len() == fks@.len(),
        forall|i: int|
            0 <= i < fks@.len() ==> (#[trigger] foreign_keys@[i])@ == loaded_foreign_key(fks@[i]),
{
    let ghost n = rows.len() as int;
    let ghost keys = table_keys(rows, n);
    proof {
        lemma_table_keys(rows, n);
    }
    let mut foreign_keys: Vec<ForeignKey> = Vec::new();
    let mut j: usize = 0;
    while j < fks.len()
        invariant
            0 <= j <= fks@.len(),
            n == rows.len(),
            keys == table_keys(rows, n),
            keys.no_duplicates(),
            tables_match(tables@, rows, n, pks, pks.len() as int, fks@, j as int),
            foreign_keys@.len() == j,
            forall|i: int|
                0 <= i < j ==> (#[trigger] foreign_keys@[i])@ == loaded_foreign_key(fks@[i]),
        decreases fks@.len() - j,
    {
        let fk = &fks[j];
        let is_self_ref = fk.from_schema == fk.to_schema && fk.from_table == fk.to_table;
        let from_columns: Vec<String> = match &fk.from_columns {
            Some(v) => copy_strings(v),
            None => Vec::new(),
        };
        let ghost listed = fk_row_columns(fks@[j as int]);
        assert(string_views(from_columns@) =~= listed);
        let ghost from_key: TableKey = (fk.from_schema@, fk.from_table@);
        let ghost old_tables = tables@;
        assert(listed.take(0) =~= Seq::<Seq<char>>::empty());
        assert(listed.take(listed.len() as int) =~= listed);
        match find_table(tables, &fk.from_schema, &fk.from_table) {
            Some(p) => {
                proof {
                    lemma_rows_of_key(rows, n, keys[p as int]);
                    assert(keys[p as int] == from_key);
                    let t = old_tables[p as int];
                    assert forall|c: int| 0 <= c < t.columns@.len() implies (
                    #[trigger] t.columns@[c])@ == partly_loaded_column(
                        rows_of(rows, n, from_key)[c],
                        pks,
                        fks@,
                        j as int,
                        0,
                    ) by {}
                }
                mark_listed_columns(
                    &mut tables[p],
                    &from_columns,
                    is_self_ref,
                    Ghost(rows),
                    Ghost(pks),
                    Ghost(fks@),
                    Ghost(j as int),
                    Ghost(from_key),
                );
                proof {
                    assert forall|q: int| 0 <= q < tables@.len() implies {
                        &&& (#[trigger] tables@[q]).schema@ == keys[q].0
                        &&& tables@[q].name@ == keys[q].1
                        &&& tables@[q].columns@.len() == rows_of(rows, n, keys[q]).len()
                        &&& forall|c: int|
                            0 <= c < tables@[q].columns@.len() ==> (#[trigger] tables@[q].columns@[c])@
                                == loaded_column(
                                rows_of(rows, n, keys[q])[c],
                                pks,
                                pks.len() as int,
                                fks@,
                                j + 1,
                            )
                    } by {
                        lemma_rows_of_key(rows, n, keys[q]);
                        if q != p {
                            assert(keys[q] != keys[p as int]);
                            assert(tables@[q] == old_tables[q]);
                        }
                        assert forall|c: int| 0 <= c < tables@[q].columns@.len() implies (
                        #[trigger] tables@[q].columns@[c])@ == loaded_column(
                            rows_of(rows, n, keys[q])[c],
                            pks,
                            pks.len() as int,
                            fks@,
                            j + 1,
                        ) by {
                            let r = rows_of(rows, n, keys[q])[c];
                            lemma_foreign_key_step(fks@, j as int, row_key(r), r.column@, false);
                            lemma_foreign_key_step(fks@, j as int, row_key(r), r.column@, true);
                            if q != p {
                                assert(old_tables[q].columns@[c]@ == loaded_column(
                                    r,
                                    pks,
                                    pks.len() as int,
                                    fks@,
                                    j as int,
                                ));
                            }
                        }
                    }
                }
            },
            None => {
                proof {
                    assert forall|q: int| 0 <= q < tables@.len() implies {
                        &&& (#[trigger] tables@[q]).schema@ == keys[q].0
                        &&& tables@[q].name@ == keys[q].1
                        &&& tables@[q].columns@.len() == rows_of(rows, n, keys[q]).len()
                        &&& forall|c: int|
                            0 <= c < tables@[q].columns@.len() ==> (#[trigger] tables@[q].columns@[c])@
                                == loaded_column(
                                rows_of(rows, n, keys[q])[c],
                                pks,
                                pks.len() as int,
                                fks@,
                                j + 1,
                            )
                    } by {
                        lemma_rows_of_key(rows, n, keys[q]);
                        assert forall|c: int| 0 <= c < tables@[q].columns@.len() implies (
                        #[trigger] tables@[q].columns@[c])@ == loaded_column(
                            rows_of(rows, n, keys[q])[c],
                            pks,
                            pks.len() as int,
                            fks@,
                            j + 1,
                        ) by {
                            let r = rows_of(rows, n, keys[q])[c];
                            lemma_foreign_key_step(fks@, j as int, row_key(r), r.column@, false);
                            lemma_foreign_key_step(fks@, j as int, row_key(r), r.column@, true);
                        }
                    }
                }
            },
        }
        foreign_keys.push(
            ForeignKey {
                from_schema: fk.from_schema.clone(),
                from_table: fk.from_table.clone(),
                to_schema: fk.to_schema.clone(),
                to_table: fk.to_table.clone(),
                from_columns,
            },
        );
        j = j + 1;
    }
    foreign_keys
}


/// Build the schema from the rows of the column, primary-key and
/// foreign-key queries.
pub fn schema_from_rows(
    column_rows: &Vec<ColumnRow>,
    pk_rows: &Vec<PrimaryKeyRow>,
    fk_rows: &Vec<ForeignKeyRow>,
) -> (schema: Schema)
    ensures
        schema@ == loaded_schema(column_rows@, pk_rows@, fk_rows@),
{
    let mut tables = group_columns(column_rows, Ghost(pk_rows@), Ghost(fk_rows@));
    mark_primary_keys(&mut tables, pk_rows, Ghost(column_rows@), Ghost(fk_rows@));
    let foreign_keys = mark_foreign_keys(
        &mut tables,
        fk_rows,
        Ghost(column_rows@),
        Ghost(pk_rows@),
    );
    let schema = Schema { tables, foreign_keys };
    proof {
        let rows = column_rows@;
        let pks = pk_rows@;
        let fks = fk_rows@;
        let n = rows.len() as int;
        let expected = loaded_schema(rows, pks, fks);
        assert forall|p: int| 0 <= p < schema.tables@.len() implies table_views(schema.tables@)[p]
            == expected.tables[p] by {
            let t = schema.tables@[p];
            let key = table_keys(rows, n)[p];
            assert(column_views(t.columns@) =~= rows_of(rows, n, key).map_values(
                |r: ColumnRow| loaded_column(r, pks, pks.len() as int, fks, fks.len() as int),
            ));
        }
        assert(schema@.tables =~= expected.tables);
        assert(schema@.foreign_keys =~= expected.foreign_keys);
    }
    schema
}

/// The tables of a loaded schema have distinct (schema, name) keys.
pub proof fn law_loaded_table_keys_distinct(
    rows: Seq<ColumnRow>,
    pks: Seq<PrimaryKeyRow>,
    fks: Seq<ForeignKeyRow>,
)
    ensures
        forall|p: int, q: int|
            0 <= p < q < loaded_schema(rows, pks, fks).tables.len() ==> table_key(
                #[trigger] loaded_schema(rows, pks, fks).tables[p],
            ) != table_key(#[trigger] loaded_schema(rows, pks, fks).tables[q]),
{
    lemma_table_keys(rows, rows.len() as int);
}

/// Every table of a loaded schema has at least one column.
pub proof fn law_loaded_tables_nonempty(
    rows: Seq<ColumnRow>,
    pks: Seq<PrimaryKeyRow>,
    fks: Seq<ForeignKeyRow>,
)
    ensures
        forall|p: int|
            0 <= p < loaded_schema(rows, pks, fks).tables.len() ==> (#[trigger] loaded_schema(
                rows,
                pks,
                fks,
            ).tables[p]).columns.len() > 0,
{
    lemma_keys_have_rows(rows, rows.len() as int);
}

/// Each table key of a prefix of the rows has at least one row there.
proof fn lemma_keys_have_rows(rows: Seq<ColumnRow>, n: int)
    requires
        0 <= n <= rows.len(),
    ensures
        forall|i: int|
            0 <= i < table_keys(rows, n).len() ==> rows_of(rows, n, #[trigger] table_keys(rows, n)[i]).len() > 0,
    decreases n,
{
    if n > 0 {
        lemma_keys_have_rows(rows, n - 1);
        let keys = table_keys(rows, n - 1);
        assert forall|i: int| 0 <= i < table_keys(rows, n).len() implies rows_of(
            rows,
            n,
            #[trigger] table_keys(rows, n)[i],
        ).len() > 0 by {
            if i < keys.len() {
                assert(table_keys(rows, n)[i] == keys[i]);
                assert(rows_of(rows, n - 1, keys[i]).len() > 0);
            }
        }
    }
}

/// In a loaded schema, a column marked as a self-referencing foreign key is
/// also marked as a foreign key.
pub proof fn law_self_foreign_key_is_foreign_key(
    rows: Seq<ColumnRow>,
    pks: Seq<PrimaryKeyRow>,
    fks: Seq<ForeignKeyRow>,
)
    ensures
        forall|p: int, c: int|
            0 <= p < loaded_schema(rows, pks, fks).tables.len() && 0 <= c < loaded_schema(
                rows,
                pks,
                fks,
            ).tables[p].columns.len() && (#[trigger] loaded_schema(rows, pks, fks).tables[p].columns[c]).is_self_foreign_key
                ==> loaded_schema(rows, pks, fks).tables[p].columns[c].is_foreign_key,
{
}


pub open spec fn sample_column_view(
    name: Seq<char>,
    data_type: Seq<char>,
    pk: bool,
    fk: bool,
    self_fk: bool,
) -> ColumnView {
    ColumnView {
        name,
        data_type,
        is_primary_key: pk,
        is_foreign_key: fk,
        is_self_foreign_key: self_fk,
    }
}

pub open spec fn sample_foreign_key_view(
    from_table: Seq<char>,
    to_table: Seq<char>,
    column: Seq<char>,
) -> ForeignKeyView {
    ForeignKeyView {
        from_schema: "public"@,
        from_table,
        to_schema: "public"@,
        to_table,
        from_columns: seq![column],
    }
}

/// The hard-coded preview schema: `users`, `posts`, `comments` and the
/// self-referencing `categories`, all in schema `public`, with the foreign
/// keys posts→users, comments→posts, comments→users and
/// categories→categories.
pub open spec fn sample_schema() -> SchemaView {
    SchemaView {
        tables: seq![
            TableView {
                schema: "public"@,
                name: "users"@,
                columns: seq![
                    sample_column_view("id"@, "integer"@, true, false, false),
                    sample_column_view("name"@, "text"@, false, false, false),
                    sample_column_view("email"@, "text"@, false, false, false),
                ],
            },
            TableView {
                schema: "public"@,
                name: "posts"@,
                columns: seq![
                    sample_column_view("id"@, "integer"@, true, false, false),
                    sample_column_view("user_id"@, "integer"@, false, true, false),
                    sample_column_view("title"@, "text"@, false, false, false),
                ],
            },
            TableView {
                schema: "public"@,
                name: "comments"@,
                columns: seq![
                    sample_column_view("id"@, "integer"@, true, false, false),
                    sample_column_view("post_id"@, "integer"@, false, true, false),
                    sample_column_view("user_id"@, "integer"@, false, true, false),
                ],
            },
            TableView {
                schema: "public"@,
                name: "categories"@,
                columns: seq![
                    sample_column_view("id"@, "integer"@, true, false, false),
                    sample_column_view("parent_id"@, "integer"@, false, true, true),
                    sample_column_view("name"@, "text"@, false, false, false),
                ],
            },
        ],
        foreign_keys: seq![
            sample_foreign_key_view("posts"@, "users"@, "user_id"@),
            sample_foreign_key_view("comments"@, "posts"@, "post_id"@),
            sample_foreign_key_view("comments"@, "users"@, "user_id"@),
            sample_foreign_key_view("categories"@, "categories"@, "parent_id"@),
        ],
    }
}

fn sample_column(name: &str, ty: &str, pk: bool, fk: bool, self_fk: bool) -> (c: Column)
    ensures
        c@ == sample_column_view(name@, ty@, pk, fk, self_fk),
{
    Column {
        name: String::from_str(name),
        data_type: String::from_str(ty),
        is_primary_key: pk,
        is_foreign_key: fk,
        is_self_foreign_key: self_fk,
    }
}

fn sample_table(name: &str, columns: Vec<Column>) -> (t: Table)
    ensures
        t.schema@ == "public"@,
        t.name@ == name@,
        t.columns@ == columns@,
{
    Table { schema: String::from_str("public"), name: String::from_str(name), columns }
}

fn sample_foreign_key(from_table: &str, to_table: &str, column: &str) -> (f: ForeignKey)
    ensures
        f@ == sample_foreign_key_view(from_table@, to_table@, column@),
{
    let from_columns = vec![String::from_str(column)];
    let f = ForeignKey {
        from_schema: String::from_str("public"),
        from_table: String::from_str(from_table),
        to_schema: String::from_str("public"),
        to_table: String::from_str(to_table),
        from_columns,
    };
    assert(f@.from_columns =~= seq![column@]);
    f
}

/// A small hard-coded schema used by the `debug` pseudo-URL to preview the
/// node widgets without a database.
pub fn sample() -> (schema: Schema)
    ensures
        schema@ == sample_schema(),
{
    let users = sample_table(
        "users",
        vec![
            sample_column("id", "integer", true, false, false),
            sample_column("name", "text", false, false, false),
            sample_column("email", "text", false, false, false),
        ],
    );
    let posts = sample_table(
        "posts",
        vec![
            sample_column("id", "integer", true, false, false),
            sample_column("user_id", "integer", false, true, false),
            sample_column("title", "text", false, false, false),
        ],
    );
    let comments = sample_table(
        "comments",
        vec![
            sample_column("id", "integer", true, false, false),
            sample_column("post_id", "integer", false, true, false),
            sample_column("user_id", "integer", false, true, false),
        ],
    );
    let categories = sample_table(
        "categories",
        vec![
            sample_column("id", "integer", true, false, false),
            sample_column("parent_id", "integer", false, true, true),
            sample_column("name", "text", false, false, false),
        ],
    );
    let tables = vec![users, posts, comments, categories];
    let foreign_keys = vec![
        sample_foreign_key("posts", "users", "user_id"),
        sample_foreign_key("comments", "posts", "post_id"),
        sample_foreign_key("comments", "users", "user_id"),
        sample_foreign_key("categories", "categories", "parent_id"),
    ];
    let schema = Schema { tables, foreign_keys };
    proof {
        let expected = sample_schema();
        assert forall|p: int| 0 <= p < 4 implies schema@.tables[p] == expected.tables[p] by {
            assert(schema@.tables[p].columns =~= expected.tables[p].columns);
        }
        assert(schema@.tables =~= expected.tables);
        assert(schema@.foreign_keys =~= expected.foreign_keys);
    }
    schema
}


fn copy_column(c: &Column) -> (r: Column)
    ensures
        r@ == c@,
{
    Column {
        name: c.name.clone(),
        data_type: c.data_type.clone(),
        is_primary_key: c.is_primary_key,
        is_foreign_key: c.is_foreign_key,
        is_self_foreign_key: c.is_self_foreign_key,
    }
}

fn copy_table(t: &Table) -> (r: Table)
    ensures
        r@ == t@,
{
    let mut columns: Vec<Column> = Vec::new();
    let mut i: usize = 0;
    while i < t.columns.len()
        invariant
            0 <= i <= t.columns@.len(),
            columns@.len() == i,
            forall|k: int| 0 <= k < i ==> (#[trigger] columns@[k])@ == t.columns@[k]@,
        decreases t.columns@.len() - i,
    {
        columns.push(copy_column(&t.columns[i]));
        i = i + 1;
    }
    let r = Table { schema: t.schema.clone(), name: t.name.clone(), columns };
    assert(r@.columns =~= t@.columns);
    r
}

/// A copy of a list of tables.
pub(crate) fn copy_tables(tables: &Vec<Table>) -> (r: Vec<Table>)
    ensures
        table_views(r@) == table_views(tables@),
{
    let mut r: Vec<Table> = Vec::new();
    let mut i: usize = 0;
    while i < tables.len()
        invariant
            0 <= i <= tables@.len(),
            r@.len() == i,
            forall|k: int| 0 <= k < i ==> (#[trigger] r@[k])@ == tables@[k]@,
        decreases tables@.len() - i,
    {
        r.push(copy_table(&tables[i]));
        i = i + 1;
    }
    assert(table_views(r@) =~= table_views(tables@));
    r
}


/// Each loaded foreign key carries the schemas, tables and column list of
/// its query row, field by field: the referenced schema and table are the
/// row's `to_schema` and `to_table`, whatever the row's `from_schema`.
pub proof fn law_loaded_foreign_keys_are_the_rows(
    rows: Seq<ColumnRow>,
    pks: Seq<PrimaryKeyRow>,
    fks: Seq<ForeignKeyRow>,
)
    ensures
        loaded_schema(rows, pks, fks).foreign_keys.len() == fks.len(),
        forall|j: int|
            0 <= j < fks.len() ==> {
                let f = #[trigger] loaded_schema(rows, pks, fks).foreign_keys[j];
                &&& f.from_schema == fks[j].from_schema@
                &&& f.from_table == fks[j].from_table@
                &&& f.to_schema == fks[j].to_schema@
                &&& f.to_table == fks[j].to_table@
                &&& (fks[j].from_columns matches Some(v) ==> f.from_columns.len() == v@.len()
                    && forall|c: int| 0 <= c < v@.len() ==> f.from_columns[c] == (#[trigger] v@[c])@)
                &&& (fks[j].from_columns is None ==> f.from_columns.len() == 0)
            },
{
}


/// Marking a column sets only the flags of its mark: a primary-key mark
/// sets the primary-key flag; a foreign-key mark sets the foreign-key flag,
/// and the self-reference flag when the key references its own table;
/// every other field stays as it was.
pub proof fn law_marking_sets_only_its_flags(c: ColumnView, mark: ColumnMark)
    ensures
        marked(c, mark).name == c.name,
        marked(c, mark).data_type == c.data_type,
        mark is PrimaryKey ==> marked(c, mark).is_primary_key && marked(c, mark).is_foreign_key
            == c.is_foreign_key && marked(c, mark).is_self_foreign_key == c.is_self_foreign_key,
        mark matches ColumnMark::ForeignKey { self_reference } ==> marked(c, mark).is_foreign_key
            && marked(c, mark).is_primary_key == c.is_primary_key && marked(c, mark).is_self_foreign_key
            == (c.is_self_foreign_key || self_reference),
{
}

/// A key is among the table keys of a prefix exactly when a row of the
/// prefix has it.
proof fn lemma_table_keys_are_row_keys(rows: Seq<ColumnRow>, n: int)
    requires
        0 <= n <= rows.len(),
    ensures
        forall|k: TableKey|
            table_keys(rows, n).contains(k) <==> exists|m: int|
                0 <= m < n && #[trigger] row_key(rows[m]) == k,
    decreases n,
{
    if n > 0 {
        lemma_table_keys_are_row_keys(rows, n - 1);
        let keys = table_keys(rows, n - 1);
        let k0 = row_key(rows[n - 1]);
        assert forall|k: TableKey|
            table_keys(rows, n).contains(k) <==> exists|m: int|
                0 <= m < n && #[trigger] row_key(rows[m]) == k by {
            if table_keys(rows, n).contains(k) {
                if keys.contains(k) {
                    let m = choose|m: int| 0 <= m < n - 1 && #[trigger] row_key(rows[m]) == k;
                    assert(row_key(rows[m]) == k);
                } else {
                    let i = choose|i: int| 0 <= i < table_keys(rows, n).len() && table_keys(rows, n)[i] == k;
                    if i < keys.len() {
                        assert(keys[i] == k);
                        assert(keys.contains(k));
                    }
                    assert(row_key(rows[n - 1]) == k);
                }
            }
            if exists|m: int| 0 <= m < n && #[trigger] row_key(rows[m]) == k {
                let m = choose|m: int| 0 <= m < n && #[trigger] row_key(rows[m]) == k;
                if m < n - 1 {
                    assert(keys.contains(k));
                    let i = choose|i: int| 0 <= i < keys.len() && keys[i] == k;
                    if !keys.contains(k0) {
                        assert(keys.push(k0)[i] == k);
                    }
                    assert(table_keys(rows, n)[i] == k);
                } else {
                    if !keys.contains(k0) {
                        assert(keys.push(k0)[keys.len() as int] == k0);
                    }
                }
            }
        }
    }
}

/// The positions in `rows` of the rows of `rows_of(rows, n, key)`: strictly
/// increasing, each row of the prefix with that key among them.
proof fn lemma_rows_of_positions(rows: Seq<ColumnRow>, n: int, key: TableKey) -> (idx: Seq<int>)
    requires
        0 <= n <= rows.len(),
    ensures
        idx.len() == rows_of(rows, n, key).len(),
        forall|c: int|
            0 <= c < idx.len() ==> 0 <= #[trigger] idx[c] < n && rows_of(rows, n, key)[c]
                == rows[idx[c]],
        forall|c: int, d: int| 0 <= c < d < idx.len() ==> #[trigger] idx[c] < #[trigger] idx[d],
        forall|m: int|
            0 <= m < n && #[trigger] row_key(rows[m]) == key ==> exists|c: int|
                0 <= c < idx.len() && idx[c] == m,
    decreases n,
{
    if n == 0 {
        seq![]
    } else {
        let prev = lemma_rows_of_positions(rows, n - 1, key);
        if row_key(rows[n - 1]) == key {
            let idx = prev.push(n - 1);
            assert forall|m: int|
                0 <= m < n && #[trigger] row_key(rows[m]) == key implies exists|c: int|
                0 <= c < idx.len() && idx[c] == m by {
                if m < n - 1 {
                    let c = choose|c: int| 0 <= c < prev.len() && prev[c] == m;
                    assert(idx[c] == m);
                } else {
                    assert(idx[prev.len() as int] == m);
                }
            }
            assert forall|c: int| 0 <= c < idx.len() implies 0 <= #[trigger] idx[c] < n && rows_of(
                rows,
                n,
                key,
            )[c] == rows[idx[c]] by {
                if c < prev.len() {
                    assert(idx[c] == prev[c]);
                }
            }
            idx
        } else {
            prev
        }
    }
}

/// The columns of `t` are the rows at positions `idx`, in increasing order,
/// with their names and types, and every row of table `t` is among them.
pub open spec fn columns_at_rows(rows: Seq<ColumnRow>, t: TableView, idx: Seq<int>) -> bool {
    &&& idx.len() == t.columns.len()
    &&& forall|c: int|
        0 <= c < idx.len() ==> 0 <= #[trigger] idx[c] < rows.len() && rows[idx[c]].schema@ == t.schema
            && rows[idx[c]].table@ == t.name && rows[idx[c]].column@ == t.columns[c].name
            && rows[idx[c]].data_type@ == t.columns[c].data_type
    &&& forall|c: int, d: int| 0 <= c < d < idx.len() ==> #[trigger] idx[c] < #[trigger] idx[d]
    &&& forall|m: int|
        0 <= m < rows.len() && (#[trigger] rows[m]).schema@ == t.schema && rows[m].table@ == t.name
            ==> exists|c: int| 0 <= c < idx.len() && idx[c] == m
}

/// Each loaded table's columns are the column rows of that table, in row
/// order, with name and type taken from the row, and every row of that
/// table is one of them.
pub proof fn law_loaded_table_columns_are_its_rows(
    rows: Seq<ColumnRow>,
    pks: Seq<PrimaryKeyRow>,
    fks: Seq<ForeignKeyRow>,
    p: int,
)
    requires
        0 <= p < loaded_schema(rows, pks, fks).tables.len(),
    ensures
        exists|idx: Seq<int>| #[trigger] columns_at_rows(rows, loaded_schema(rows, pks, fks).tables[p], idx),
{
    let n = rows.len() as int;
    let keys = table_keys(rows, n);
    let ls = loaded_schema(rows, pks, fks);
    let key = keys[p];
    let t = ls.tables[p];
    let idx = lemma_rows_of_positions(rows, n, key);
    lemma_rows_of_key(rows, n, key);
    assert forall|c: int| 0 <= c < idx.len() implies 0 <= #[trigger] idx[c] < rows.len()
        && rows[idx[c]].schema@ == t.schema && rows[idx[c]].table@ == t.name && rows[idx[c]].column@
        == t.columns[c].name && rows[idx[c]].data_type@ == t.columns[c].data_type by {
        assert(row_key(rows_of(rows, n, key)[c]) == key);
    }
    assert forall|m: int|
        0 <= m < rows.len() && (#[trigger] rows[m]).schema@ == t.schema && rows[m].table@ == t.name
            implies exists|c: int| 0 <= c < idx.len() && idx[c] == m by {
        assert(row_key(rows[m]) == key);
    }
    assert(columns_at_rows(rows, t, idx));
}

/// Every column row belongs to a loaded table with its schema and table
/// name.
pub proof fn law_every_row_is_in_a_table(
    rows: Seq<ColumnRow>,
    pks: Seq<PrimaryKeyRow>,
    fks: Seq<ForeignKeyRow>,
)
    ensures
        forall|m: int|
            0 <= m < rows.len() ==> exists|p: int|
                0 <= p < loaded_schema(rows, pks, fks).tables.len() && (#[trigger] loaded_schema(
                    rows,
                    pks,
                    fks,
                ).tables[p]).schema == (#[trigger] rows[m]).schema@ && loaded_schema(
                    rows,
                    pks,
                    fks,
                ).tables[p].name == rows[m].table@,
{
    let n = rows.len() as int;
    let keys = table_keys(rows, n);
    let ls = loaded_schema(rows, pks, fks);
    lemma_table_keys_are_row_keys(rows, n);
    assert forall|m: int| 0 <= m < rows.len() implies exists|p: int|
        0 <= p < ls.tables.len() && (#[trigger] ls.tables[p]).schema == (#[trigger] rows[m]).schema@
            && ls.tables[p].name == rows[m].table@ by {
        assert(row_key(rows[m]) == row_key(rows[m]));
        assert(keys.contains(row_key(rows[m])));
        let p = choose|p: int| 0 <= p < keys.len() && keys[p] == row_key(rows[m]);
        assert(ls.tables[p].schema == keys[p].0);
    }
}

/// Column row `r` belongs to table `t`.
pub open spec fn row_in_table(r: ColumnRow, t: TableView) -> bool {
    r.schema@ == t.schema && r.table@ == t.name
}

/// Tables come in order of first appearance: every row of a later table is
/// preceded by a row of each earlier table.
pub proof fn law_tables_in_first_appearance_order(
    rows: Seq<ColumnRow>,
    pks: Seq<PrimaryKeyRow>,
    fks: Seq<ForeignKeyRow>,
    p: int,
    q: int,
    m: int,
)
    requires
        0 <= p < q < loaded_schema(rows, pks, fks).tables.len(),
        0 <= m < rows.len(),
        row_in_table(rows[m], loaded_schema(rows, pks, fks).tables[q]),
    ensures
        exists|m2: int|
            0 <= m2 < m && #[trigger] row_in_table(rows[m2], loaded_schema(rows, pks, fks).tables[p]),
{
    let n = rows.len() as int;
    let keys = table_keys(rows, n);
    let ls = loaded_schema(rows, pks, fks);
    lemma_table_keys_order(rows, n);
    assert(row_key(rows[m]) == keys[q]);
    assert(keys[q] == table_keys(rows, n)[q]);
    let m2 = choose|m2: int| 0 <= m2 < m && #[trigger] row_key(rows[m2]) == keys[p];
    assert(row_key(rows[m2]) == keys[p]);
    assert(row_in_table(rows[m2], ls.tables[p]));
}

/// Keys come in order of first appearance: every row of a later key is
/// preceded by a row of each earlier key.
proof fn lemma_table_keys_order(rows: Seq<ColumnRow>, n: int)
    requires
        0 <= n <= rows.len(),
    ensures
        forall|p: int, q: int, m: int|
            #![trigger row_key(rows[m]), table_keys(rows, n)[q], table_keys(rows, n)[p]]
            0 <= p < q < table_keys(rows, n).len() && 0 <= m < n && row_key(rows[m])
                == table_keys(rows, n)[q] ==> exists|m2: int|
                0 <= m2 < m && #[trigger] row_key(rows[m2]) == table_keys(rows, n)[p],
    decreases n,
{
    if n > 0 {
        lemma_table_keys_order(rows, n - 1);
        lemma_table_keys_are_row_keys(rows, n - 1);
        lemma_table_keys_are_row_keys(rows, n);
        let keys = table_keys(rows, n - 1);
        let k0 = row_key(rows[n - 1]);
        let keys2 = table_keys(rows, n);
        assert forall|p: int, q: int, m: int|
            #![trigger row_key(rows[m]), keys2[q], keys2[p]]
            0 <= p < q < keys2.len() && 0 <= m < n && row_key(rows[m]) == keys2[q]
                implies exists|m2: int| 0 <= m2 < m && #[trigger] row_key(rows[m2]) == keys2[p] by {
            if q < keys.len() {
                assert(keys2[q] == keys[q]);
                assert(keys2[p] == keys[p]);
                if m < n - 1 {
                    let m2 = choose|m2: int| 0 <= m2 < m && #[trigger] row_key(rows[m2]) == keys[p];
                    assert(row_key(rows[m2]) == keys2[p]);
                } else {
                    assert(keys.contains(keys[q]));
                    let m1 = choose|m1: int| 0 <= m1 < n - 1 && #[trigger] row_key(rows[m1]) == keys[q];
                    let m2 = choose|m2: int| 0 <= m2 < m1 && #[trigger] row_key(rows[m2]) == keys[p];
                    assert(row_key(rows[m2]) == keys2[p]);
                }
            } else {
                // q is the key first seen at row n - 1
                assert(!keys.contains(k0));
                assert(keys2 == keys.push(k0));
                assert(keys2[q] == k0);
                assert(keys2[p] == keys[p]);
                assert(keys.contains(keys[p]));
                let m2 = choose|m2: int| 0 <= m2 < n - 1 && #[trigger] row_key(rows[m2]) == keys[p];
                if m < n - 1 {
                    assert(keys.contains(k0));
                }
                assert(row_key(rows[m2]) == keys2[p]);
            }
        }
    }
}

/// A loaded column is a primary key exactly when a primary-key row names
/// its table and column; a foreign key exactly when a foreign-key row from
/// its table lists it; and a self-referencing foreign key exactly when such
/// a row also references its own table.
pub proof fn law_loaded_column_flags(
    rows: Seq<ColumnRow>,
    pks: Seq<PrimaryKeyRow>,
    fks: Seq<ForeignKeyRow>,
)
    ensures
        forall|p: int, c: int|
            0 <= p < loaded_schema(rows, pks, fks).tables.len() && 0 <= c < loaded_schema(
                rows,
                pks,
                fks,
            ).tables[p].columns.len() ==> {
                let t = loaded_schema(rows, pks, fks).tables[p];
                let col = #[trigger] loaded_schema(rows, pks, fks).tables[p].columns[c];
                &&& col.is_primary_key <==> exists|j: int|
                    0 <= j < pks.len() && (#[trigger] pks[j]).schema@ == t.schema && pks[j].table@
                        == t.name && pks[j].column@ == col.name
                &&& col.is_foreign_key <==> exists|j: int|
                    0 <= j < fks.len() && (#[trigger] fks[j]).from_schema@ == t.schema
                        && fks[j].from_table@ == t.name && (fks[j].from_columns matches Some(v)
                        && exists|k: int| 0 <= k < v@.len() && (#[trigger] v@[k])@ == col.name)
                &&& col.is_self_foreign_key <==> exists|j: int|
                    0 <= j < fks.len() && (#[trigger] fks[j]).from_schema@ == t.schema
                        && fks[j].from_table@ == t.name && fks[j].to_schema@ == t.schema
                        && fks[j].to_table@ == t.name && (fks[j].from_columns matches Some(v)
                        && exists|k: int| 0 <= k < v@.len() && (#[trigger] v@[k])@ == col.name)
            },
{
    let n = rows.len() as int;
    let keys = table_keys(rows, n);
    let ls = loaded_schema(rows, pks, fks);
    assert forall|p: int, c: int|
        0 <= p < ls.tables.len() && 0 <= c < ls.tables[p].columns.len() implies {
        let t = ls.tables[p];
        let col = #[trigger] ls.tables[p].columns[c];
        &&& col.is_primary_key <==> exists|j: int|
            0 <= j < pks.len() && (#[trigger] pks[j]).schema@ == t.schema && pks[j].table@ == t.name
                && pks[j].column@ == col.name
        &&& col.is_foreign_key <==> exists|j: int|
            0 <= j < fks.len() && (#[trigger] fks[j]).from_schema@ == t.schema && fks[j].from_table@
                == t.name && (fks[j].from_columns matches Some(v) && exists|k: int|
                0 <= k < v@.len() && (#[trigger] v@[k])@ == col.name)
        &&& col.is_self_foreign_key <==> exists|j: int|
            0 <= j < fks.len() && (#[trigger] fks[j]).from_schema@ == t.schema && fks[j].from_table@
                == t.name && fks[j].to_schema@ == t.schema && fks[j].to_table@ == t.name && (
            fks[j].from_columns matches Some(v) && exists|k: int|
                0 <= k < v@.len() && (#[trigger] v@[k])@ == col.name)
    } by {
        let key = keys[p];
        lemma_rows_of_key(rows, n, key);
        let r = rows_of(rows, n, key)[c];
        assert(row_key(r) == key);
        let t = ls.tables[p];
        let col = ls.tables[p].columns[c];
        assert(col == loaded_column(r, pks, pks.len() as int, fks, fks.len() as int));
        assert forall|j: int| 0 <= j < fks.len() implies (fk_row_columns(#[trigger] fks[j]).contains(
            col.name,
        ) <==> (fks[j].from_columns matches Some(v) && exists|k: int|
            0 <= k < v@.len() && (#[trigger] v@[k])@ == col.name)) by {
            if let Some(v) = fks[j].from_columns {
                if fk_row_columns(fks[j]).contains(col.name) {
                    let k = choose|k: int| 0 <= k < string_views(v@).len() && string_views(v@)[k] == col.name;
                    assert(v@[k]@ == col.name);
                }
                if exists|k: int| 0 <= k < v@.len() && (#[trigger] v@[k])@ == col.name {
                    let k = choose|k: int| 0 <= k < v@.len() && (#[trigger] v@[k])@ == col.name;
                    assert(string_views(v@)[k] == col.name);
                }
            }
        }
    }
}

} // verus!
