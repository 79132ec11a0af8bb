//! Schema assembly: building the table → {columns, relations} graph from
//! the two raw catalog result sets — column rows and foreign-key rows.
//!
//! The assembler never fails: inconsistent catalog data (a constraint on a
//! dropped column, a reference to a table outside the column set) degrades
//! the graph — an edge is skipped or a column stays untagged — rather than
//! aborting the run.

use vstd::prelude::*;

use crate::cli::str_eq;

verus! {

/// One row of the catalog's column enumeration:
/// `(table, column, declared type, primary-key flag)`, ordered by
/// `(table, ordinal position)` in the result set.
pub struct ColumnRow {
    pub table: String,
    pub column: String,
    pub data_type: String,
    pub is_pk: bool,
}

/// Mathematical form of a `ColumnRow`.
#[verifier::ext_equal]
pub struct ColumnRowSpec {
    pub table: Seq<char>,
    pub column: Seq<char>,
    pub data_type: Seq<char>,
    pub is_pk: bool,
}

impl View for ColumnRow {
    type V = ColumnRowSpec;

    open spec fn view(&self) -> ColumnRowSpec {
        ColumnRowSpec {
            table: self.table@,
            column: self.column@,
            data_type: self.data_type@,
            is_pk: self.is_pk,
        }
    }
}

/// One row of the catalog's foreign-key enumeration: the constraint
/// `table.column → foreign_table.foreign_column`, one row per
/// single-column foreign key, in no particular order.
pub struct ForeignKeyRow {
    pub table: String,
    pub column: String,
    pub foreign_table: String,
    pub foreign_column: String,
}

/// Mathematical form of a `ForeignKeyRow`.
#[verifier::ext_equal]
pub struct ForeignKeyRowSpec {
    pub table: Seq<char>,
    pub column: Seq<char>,
    pub foreign_table: Seq<char>,
    pub foreign_column: Seq<char>,
}

impl View for ForeignKeyRow {
    type V = ForeignKeyRowSpec;

    open spec fn view(&self) -> ForeignKeyRowSpec {
        ForeignKeyRowSpec {
            table: self.table@,
            column: self.column@,
            foreign_table: self.foreign_table@,
            foreign_column: self.foreign_column@,
        }
    }
}

/// Which way a relationship edge points: `References` is the "belongs to"
/// side on the table holding the foreign key; `ReferencedBy` is the
/// synthesized inverse, the "has many" side on the referenced table.
#[derive(Clone, Copy, Debug, PartialEq, Eq, Structural)]
pub enum RelationKind {
    References,
    ReferencedBy,
}

impl RelationKind {
    /// The label a relation kind carries in serialized output.
    pub fn label(&self) -> (r: String)
        ensures
            *self == RelationKind::References ==> r@ == "Belongs To"@,
            *self == RelationKind::ReferencedBy ==> r@ == "Has Many"@,
    {
        match self {
            RelationKind::References => String::from_str("Belongs To"),
            RelationKind::ReferencedBy => String::from_str("Has Many"),
        }
    }
}

/// A column of an assembled table: its name, declared type, primary-key
/// flag, and whether a foreign-key constraint was found on it.
#[derive(Debug, Clone, PartialEq)]
pub struct ColumnDef {
    pub name: String,
    pub data_type: String,
    pub is_pk: bool,
    pub is_fk: bool,
}

/// Mathematical form of a `ColumnDef`.
#[verifier::ext_equal]
pub struct ColumnDefSpec {
    pub name: Seq<char>,
    pub data_type: Seq<char>,
    pub is_pk: bool,
    pub is_fk: bool,
}

impl View for ColumnDef {
    type V = ColumnDefSpec;

    open spec fn view(&self) -> ColumnDefSpec {
        ColumnDefSpec {
            name: self.name@,
            data_type: self.data_type@,
            is_pk: self.is_pk,
            is_fk: self.is_fk,
        }
    }
}

/// A relationship edge of an assembled table, immutable once created.
#[derive(Debug, Clone, PartialEq)]
pub struct Relation {
    pub kind: RelationKind,
    pub target_table: String,
    pub source_col: String,
    pub target_col: String,
}

/// Mathematical form of a `Relation`.
#[verifier::ext_equal]
pub struct RelationSpec {
    pub kind: RelationKind,
    pub target_table: Seq<char>,
    pub source_col: Seq<char>,
    pub target_col: Seq<char>,
}

impl View for Relation {
    type V = RelationSpec;

    open spec fn view(&self) -> RelationSpec {
        RelationSpec {
            kind: self.kind,
            target_table: self.target_table@,
            source_col: self.source_col@,
            target_col: self.target_col@,
        }
    }
}

/// The columns (in catalog ordinal order) and relationship edges
/// (in discovery order) of one table.
pub struct TableData {
    pub columns: Vec<ColumnDef>,
    pub relations: Vec<Relation>,
}

/// Mathematical form of a `TableData`.
#[verifier::ext_equal]
pub struct TableDataSpec {
    pub columns: Seq<ColumnDefSpec>,
    pub relations: Seq<RelationSpec>,
}

impl View for TableData {
    type V = TableDataSpec;

    open spec fn view(&self) -> TableDataSpec {
        TableDataSpec {
            columns: self.columns@.map_values(|c: ColumnDef| c@),
            relations: self.relations@.map_values(|r: Relation| r@),
        }
    }
}

/// One table of the graph, keyed by its name.
pub struct TableEntry {
    pub name: String,
    pub data: TableData,
}

/// Mathematical form of a `TableEntry`.
#[verifier::ext_equal]
pub struct TableEntrySpec {
    pub name: Seq<char>,
    pub data: TableDataSpec,
}

impl View for TableEntry {
    type V = TableEntrySpec;

    open spec fn view(&self) -> TableEntrySpec {
        TableEntrySpec { name: self.name@, data: self.data@ }
    }
}

/// The assembled graph: one entry per table name, in order of first
/// appearance in the column rows. Table names are unique, so the entry
/// sequence is a mapping from table name to table data.
pub struct SchemaGraph {
    pub entries: Vec<TableEntry>,
}

impl View for SchemaGraph {
    type V = Seq<TableEntrySpec>;

    open spec fn view(&self) -> Seq<TableEntrySpec> {
        self.entries@.map_values(|e: TableEntry| e@)
    }
}

/// Table names are pairwise distinct.
pub open spec fn distinct_names(g: Seq<TableEntrySpec>) -> bool {
    forall|i: int, j: int| 0 <= i < j < g.len() ==> g[i].name != g[j].name
}

impl SchemaGraph {
    /// Table names are pairwise distinct, so the entry sequence is a mapping.
    pub open spec fn wf(&self) -> bool {
        distinct_names(self@)
    }
}

/// The view of a whole entry sequence.
pub open spec fn entries_view(entries: Seq<TableEntry>) -> Seq<TableEntrySpec> {
    entries.map_values(|e: TableEntry| e@)
}

/// The sequences of views of the raw input rows.
pub open spec fn column_rows_view(s: Seq<ColumnRow>) -> Seq<ColumnRowSpec> {
    s.map_values(|r: ColumnRow| r@)
}

pub open spec fn fk_rows_view(s: Seq<ForeignKeyRow>) -> Seq<ForeignKeyRowSpec> {
    s.map_values(|r: ForeignKeyRow| r@)
}

/// The distinct table names of a column-row sequence, in order of first
/// appearance. These are exactly the tables of the assembled graph.
pub open spec fn first_tables(rows: Seq<ColumnRowSpec>) -> Seq<Seq<char>>
    decreases rows.len(),
{
    if rows.len() == 0 {
        Seq::empty()
    } else {
        let front = first_tables(rows.drop_last());
        if front.contains(rows.last().table) {
            front
        } else {
            front.push(rows.last().table)
        }
    }
}

/// The column a row contributes, before any foreign-key tagging.
pub open spec fn raw_column(r: ColumnRowSpec) -> ColumnDefSpec {
    ColumnDefSpec { name: r.column, data_type: r.data_type, is_pk: r.is_pk, is_fk: false }
}

/// The untagged columns of table `t`: the rows naming `t`, in input
/// order, each as a column definition.
pub open spec fn raw_columns(rows: Seq<ColumnRowSpec>, t: Seq<char>) -> Seq<ColumnDefSpec>
    decreases rows.len(),
{
    if rows.len() == 0 {
        Seq::empty()
    } else {
        raw_columns(rows.drop_last(), t) + (if rows.last().table == t {
            seq![raw_column(rows.last())]
        } else {
            Seq::empty()
        })
    }
}

/// Whether some foreign-key row constrains column `name` of table `t`.
pub open spec fn has_fk(fks: Seq<ForeignKeyRowSpec>, t: Seq<char>, name: Seq<char>) -> bool
    decreases fks.len(),
{
    if fks.len() == 0 {
        false
    } else {
        has_fk(fks.drop_last(), t, name) || (fks.last().table == t && fks.last().column == name)
    }
}

/// One column after foreign-key discovery: tagged exactly when some
/// foreign-key row constrains it.
pub open spec fn tag_column(c: ColumnDefSpec, fks: Seq<ForeignKeyRowSpec>, t: Seq<char>) -> ColumnDefSpec {
    ColumnDefSpec {
        name: c.name,
        data_type: c.data_type,
        is_pk: c.is_pk,
        is_fk: c.is_fk || has_fk(fks, t, c.name),
    }
}

/// A whole column sequence after foreign-key discovery.
pub open spec fn tag_columns(
    cols: Seq<ColumnDefSpec>,
    fks: Seq<ForeignKeyRowSpec>,
    t: Seq<char>,
) -> Seq<ColumnDefSpec> {
    cols.map_values(|c: ColumnDefSpec| tag_column(c, fks, t))
}

/// The "belongs to" edge a foreign key puts on its source table.
pub open spec fn references_edge(f: ForeignKeyRowSpec) -> RelationSpec {
    RelationSpec {
        kind: RelationKind::References,
        target_table: f.foreign_table,
        source_col: f.column,
        target_col: f.foreign_column,
    }
}

/// The synthesized "has many" edge a foreign key puts on its target table.
pub open spec fn referenced_by_edge(f: ForeignKeyRowSpec) -> RelationSpec {
    RelationSpec {
        kind: RelationKind::ReferencedBy,
        target_table: f.table,
        source_col: f.foreign_column,
        target_col: f.column,
    }
}

/// The edges one foreign-key row puts on table `t`: the `References` edge
/// when `t` is the source, then the `ReferencedBy` edge when `t` is the
/// target. A self-referential key puts both on the same table, in that
/// order; an unrelated key puts none.
pub open spec fn edges_for(t: Seq<char>, f: ForeignKeyRowSpec) -> Seq<RelationSpec> {
    (if f.table == t {
        seq![references_edge(f)]
    } else {
        Seq::empty()
    }) + (if f.foreign_table == t {
        seq![referenced_by_edge(f)]
    } else {
        Seq::empty()
    })
}

/// All relationship edges of table `t`, in foreign-key input order.
pub open spec fn table_relations(fks: Seq<ForeignKeyRowSpec>, t: Seq<char>) -> Seq<RelationSpec>
    decreases fks.len(),
{
    if fks.len() == 0 {
        Seq::empty()
    } else {
        table_relations(fks.drop_last(), t) + edges_for(t, fks.last())
    }
}

/// The table names of a graph, in entry order.
pub open spec fn names_of(g: Seq<TableEntrySpec>) -> Seq<Seq<char>> {
    g.map_values(|e: TableEntrySpec| e.name)
}

/// A column-row sequence mentions table `t` exactly when `t` is among its
/// first-appearance table names.
pub proof fn lemma_first_tables_contains(rows: Seq<ColumnRowSpec>, t: Seq<char>)
    ensures
        first_tables(rows).contains(t) <==> (exists|i: int|
            0 <= i < rows.len() && rows[i].table == t),
    decreases rows.len(),
{
    if rows.len() == 0 {
    } else {
        lemma_first_tables_contains(rows.drop_last(), t);
        let front = first_tables(rows.drop_last());
        if rows.last().table == t {
            if front.contains(t) {
                assert(rows[rows.len() - 1].table == t);
            } else {
                assert(first_tables(rows)[front.len() as int] == t);
                assert(rows[rows.len() - 1].table == t);
            }
        } else {
            if exists|i: int| 0 <= i < rows.len() && rows[i].table == t {
                let i = choose|i: int| 0 <= i < rows.len() && rows[i].table == t;
                assert(rows.drop_last()[i] == rows[i]);
            }
            if front.contains(t) {
                let k = choose|k: int| 0 <= k < front.len() && front[k] == t;
                if !front.contains(rows.last().table) {
                    assert(first_tables(rows)[k] == t);
                }
            }
        }
    }
}

/// A table mentioned by no row has no columns.
pub proof fn lemma_raw_columns_absent(rows: Seq<ColumnRowSpec>, t: Seq<char>)
    requires
        forall|i: int| 0 <= i < rows.len() ==> rows[i].table != t,
    ensures
        raw_columns(rows, t) == Seq::<ColumnDefSpec>::empty(),
    decreases rows.len(),
{
    if rows.len() == 0 {
    } else {
        assert(forall|i: int|
            0 <= i < rows.drop_last().len() ==> rows.drop_last()[i].table != t);
        lemma_raw_columns_absent(rows.drop_last(), t);
        assert(rows.last().table != t);
        assert(raw_columns(rows, t) =~= Seq::<ColumnDefSpec>::empty());
    }
}

/// The index of the entry named `name`, scanning from the front.
fn find_entry(entries: &Vec<TableEntry>, name: &str) -> (r: Option<usize>)
    ensures
        (match r {
            Some(i) => 0 <= i < entries@.len() && entries@[i as int].name@ == name@,
            None => forall|j: int| 0 <= j < entries@.len() ==> entries@[j].name@ != name@,
        }),
{
    let n = entries.len();
    let mut i: usize = 0;
    while i < n
        invariant
            n == entries@.len(),
            i <= n,
            forall|j: int| 0 <= j < i ==> entries@[j].name@ != name@,
        decreases n - i,
    {
        if str_eq(entries[i].name.as_str(), name) {
            return Some(i);
        }
        i += 1;
    }
    None
}

/// Adds one column row to the graph under construction: the entry for its
/// table is extended, or created when the row is the table's first.
fn add_column(entries: &mut Vec<TableEntry>, row: &ColumnRow)
    requires
        distinct_names(entries_view(old(entries)@)),
    ensures
        ({
            ||| exists|i: int|
                #![trigger entries_view(old(entries)@)[i]]
                0 <= i < old(entries)@.len() && entries_view(old(entries)@)[i].name == row@.table
                    && entries_view(final(entries)@) == entries_view(old(entries)@).update(
                    i,
                    TableEntrySpec {
                        name: entries_view(old(entries)@)[i].name,
                        data: TableDataSpec {
                            columns: entries_view(old(entries)@)[i].data.columns.push(
                                raw_column(row@),
                            ),
                            relations: entries_view(old(entries)@)[i].data.relations,
                        },
                    },
                )
            ||| ((forall|j: int|
                0 <= j < old(entries)@.len() ==> #[trigger] entries_view(old(entries)@)[j].name
                    != row@.table) && entries_view(final(entries)@) == entries_view(
                old(entries)@,
            ).push(
                TableEntrySpec {
                    name: row@.table,
                    data: TableDataSpec {
                        columns: seq![raw_column(row@)],
                        relations: Seq::empty(),
                    },
                },
            ))
        }),
{
    let found = find_entry(entries, row.table.as_str());
    match found {
        Some(i) => {
            let mut e = entries.remove(i);
            e.data.columns.push(ColumnDef {
                name: row.column.clone(),
                data_type: row.data_type.clone(),
                is_pk: row.is_pk,
                is_fk: false,
            });
            entries.insert(i, e);
            proof {
                let gv = entries_view(old(entries)@);
                assert(gv[i as int] == old(entries)@[i as int]@);
                assert(gv[i as int].name == row@.table);
                assert(entries_view(entries@) =~~= gv.update(
                    i as int,
                    TableEntrySpec {
                        name: gv[i as int].name,
                        data: TableDataSpec {
                            columns: gv[i as int].data.columns.push(raw_column(row@)),
                            relations: gv[i as int].data.relations,
                        },
                    },
                ));
            }
        },
        None => {
            let mut columns: Vec<ColumnDef> = Vec::new();
            columns.push(ColumnDef {
                name: row.column.clone(),
                data_type: row.data_type.clone(),
                is_pk: row.is_pk,
                is_fk: false,
            });
            let relations: Vec<Relation> = Vec::new();
            entries.push(TableEntry {
                name: row.table.clone(),
                data: TableData { columns, relations },
            });
            proof {
                let gv = entries_view(old(entries)@);
                assert forall|j: int| 0 <= j < old(entries)@.len() implies #[trigger] gv[j].name
                    != row@.table by {
                    assert(gv[j] == old(entries)@[j]@);
                    assert(old(entries)@[j].name@ != row.table@);
                }
                assert(entries_view(entries@) =~~= gv.push(
                    TableEntrySpec {
                        name: row@.table,
                        data: TableDataSpec {
                            columns: seq![raw_column(row@)],
                            relations: Seq::empty(),
                        },
                    },
                ));
            }
        },
    }
}

/// First pass: one entry per table, created on the table's first column
/// row, columns appended in input order, no relations yet.
fn build_tables(column_rows: &Vec<ColumnRow>) -> (entries: Vec<TableEntry>)
    ensures
        distinct_names(entries_view(entries@)),
        names_of(entries_view(entries@)) == first_tables(column_rows_view(column_rows@)),
        forall|k: int|
            0 <= k < entries@.len() ==> #[trigger] entries_view(entries@)[k].data.columns
                == raw_columns(column_rows_view(column_rows@), entries_view(entries@)[k].name),
        forall|k: int|
            0 <= k < entries@.len() ==> #[trigger] entries_view(entries@)[k].data.relations
                == Seq::<RelationSpec>::empty(),
{
    let ghost rv = column_rows_view(column_rows@);
    let mut entries: Vec<TableEntry> = Vec::new();
    let n = column_rows.len();
    let mut i: usize = 0;
    proof {
        assert(rv.take(0) =~= Seq::<ColumnRowSpec>::empty());
        assert(names_of(entries_view(entries@)) =~= first_tables(rv.take(0)));
    }
    while i < n
        invariant
            n == column_rows@.len(),
            rv == column_rows_view(column_rows@),
            i <= n,
            distinct_names(entries_view(entries@)),
            names_of(entries_view(entries@)) == first_tables(rv.take(i as int)),
            forall|k: int|
                0 <= k < entries@.len() ==> #[trigger] entries_view(entries@)[k].data.columns
                    == raw_columns(rv.take(i as int), entries_view(entries@)[k].name),
            forall|k: int|
                0 <= k < entries@.len() ==> #[trigger] entries_view(entries@)[k].data.relations
                    == Seq::<RelationSpec>::empty(),
        decreases n - i,
    {
        let ghost prev = entries_view(entries@);
        let ghost row = rv[i as int];
        add_column(&mut entries, &column_rows[i]);
        proof {
            let cur = entries_view(entries@);
            let ii = i as int;
            assert(rv.take(ii + 1).drop_last() =~= rv.take(ii));
            assert(rv.take(ii + 1).last() == row);
            // How each table's untagged columns grow with one more row.
            assert forall|t: Seq<char>| true implies raw_columns(rv.take(ii + 1), t)
                == raw_columns(rv.take(ii), t) + (if row.table == t {
                seq![raw_column(row)]
            } else {
                Seq::<ColumnDefSpec>::empty()
            }) by {}
            assert(column_rows@[ii]@ == row);
            if exists|j: int| 0 <= j < prev.len() && prev[j].name == row.table {
                // The table already has an entry: that entry was extended.
                let j0 = choose|j: int| 0 <= j < prev.len() && prev[j].name == row.table;
                assert(prev[j0].name == row.table);
                let j = choose|j: int|
                    0 <= j < prev.len() && prev[j].name == row.table && cur == prev.update(
                        j,
                        TableEntrySpec {
                            name: prev[j].name,
                            data: TableDataSpec {
                                columns: prev[j].data.columns.push(raw_column(row)),
                                relations: prev[j].data.relations,
                            },
                        },
                    );
                assert(cur =~~= prev.update(
                    j,
                    TableEntrySpec {
                        name: prev[j].name,
                        data: TableDataSpec {
                            columns: prev[j].data.columns.push(raw_column(row)),
                            relations: prev[j].data.relations,
                        },
                    },
                ));
                assert(names_of(cur) =~= names_of(prev));
                assert(first_tables(rv.take(ii)).contains(row.table)) by {
                    assert(names_of(prev)[j] == row.table);
                }
                assert(first_tables(rv.take(ii + 1)) == first_tables(rv.take(ii)));
                assert forall|k: int| 0 <= k < cur.len() implies #[trigger] cur[k].data.columns
                    == raw_columns(rv.take(ii + 1), cur[k].name) by {
                    if k == j {
                        assert(cur[k].data.columns == prev[j].data.columns.push(raw_column(row)));
                        assert(prev[j].data.columns + seq![raw_column(row)] =~= prev[
                            j
                        ].data.columns.push(raw_column(row)));
                    } else {
                        assert(cur[k].name != row.table);
                        assert(raw_columns(rv.take(ii + 1), cur[k].name) =~= raw_columns(
                            rv.take(ii),
                            cur[k].name,
                        ));
                    }
                }
            } else {
                // First column row of this table: a fresh entry was appended.
                assert(column_rows@[ii]@ == row);
                assert forall|j: int| 0 <= j < prev.len() implies #[trigger] prev[j].name
                    != row.table by {}
                assert(cur =~~= prev.push(
                    TableEntrySpec {
                        name: row.table,
                        data: TableDataSpec {
                            columns: seq![raw_column(row)],
                            relations: Seq::empty(),
                        },
                    },
                ));
                assert(names_of(cur) =~= names_of(prev).push(row.table));
                assert(!first_tables(rv.take(ii)).contains(row.table)) by {
                    if first_tables(rv.take(ii)).contains(row.table) {
                        let k = choose|k: int|
                            0 <= k < names_of(prev).len() && names_of(prev)[k] == row.table;
                        assert(prev[k].name == row.table);
                    }
                }
                assert(first_tables(rv.take(ii + 1)) == names_of(prev).push(row.table));
                assert(raw_columns(rv.take(ii), row.table) == Seq::<ColumnDefSpec>::empty()) by {
                    lemma_first_tables_contains(rv.take(ii), row.table);
                    lemma_raw_columns_absent(rv.take(ii), row.table);
                }
                assert forall|k: int| 0 <= k < cur.len() implies #[trigger] cur[k].data.columns
                    == raw_columns(rv.take(ii + 1), cur[k].name) by {
                    if k == cur.len() - 1 {
                        assert(Seq::<ColumnDefSpec>::empty() + seq![raw_column(row)] =~= seq![
                            raw_column(row),
                        ]);
                    } else {
                        assert(cur[k] == prev[k]);
                        assert(cur[k].name != row.table) by {
                            assert(names_of(prev)[k] == prev[k].name);
                        }
                        assert(raw_columns(rv.take(ii + 1), cur[k].name) =~= raw_columns(
                            rv.take(ii),
                            cur[k].name,
                        ));
                    }
                }
                assert(distinct_names(cur)) by {
                    assert(forall|k: int| 0 <= k < prev.len() ==> #[trigger] prev[k].name != row.table);
                }
            }
        }
        i += 1;
    }
    proof {
        assert(rv.take(n as int) =~= rv);
    }
    entries
}

/// The view of a column sequence.
pub open spec fn cols_view(s: Seq<ColumnDef>) -> Seq<ColumnDefSpec> {
    s.map_values(|c: ColumnDef| c@)
}

/// One column after discovery of a single foreign key on column `name`.
pub open spec fn tag_match(c: ColumnDefSpec, name: Seq<char>) -> ColumnDefSpec {
    if c.name == name {
        ColumnDefSpec { name: c.name, data_type: c.data_type, is_pk: c.is_pk, is_fk: true }
    } else {
        c
    }
}

/// Tagging with a single foreign-key row is the single-column tag of
/// every column named by it.
pub proof fn lemma_tag_columns_single(
    cols: Seq<ColumnDefSpec>,
    f: ForeignKeyRowSpec,
    t: Seq<char>,
)
    requires
        f.table == t,
    ensures
        tag_columns(cols, seq![f], t) == cols.map_values(
            |c: ColumnDefSpec| tag_match(c, f.column),
        ),
{
    assert(seq![f].drop_last() =~= Seq::<ForeignKeyRowSpec>::empty());
    assert(seq![f].last() == f);
    assert forall|c: ColumnDefSpec| #[trigger] tag_column(c, seq![f], t) == tag_match(
        c,
        f.column,
    ) by {
        assert(!has_fk(Seq::<ForeignKeyRowSpec>::empty(), t, c.name));
        assert(has_fk(seq![f], t, c.name) == (f.column == c.name));
    }
    assert(tag_columns(cols, seq![f], t) =~= cols.map_values(
        |c: ColumnDefSpec| tag_match(c, f.column),
    ));
}

/// Tagging with a single foreign-key row of another table changes nothing.
pub proof fn lemma_tag_columns_other(cols: Seq<ColumnDefSpec>, f: ForeignKeyRowSpec, t: Seq<char>)
    requires
        f.table != t,
    ensures
        tag_columns(cols, seq![f], t) == cols,
{
    assert(seq![f].drop_last() =~= Seq::<ForeignKeyRowSpec>::empty());
    assert(seq![f].last() == f);
    assert forall|c: ColumnDefSpec| #[trigger] tag_column(c, seq![f], t) == c by {
        assert(!has_fk(Seq::<ForeignKeyRowSpec>::empty(), t, c.name));
        assert(!has_fk(seq![f], t, c.name));
    }
    assert(tag_columns(cols, seq![f], t) =~= cols);
}

/// Tagging with one more foreign-key row is tagging with the rows so far,
/// then with that one row.
pub proof fn lemma_tag_columns_snoc(
    cols: Seq<ColumnDefSpec>,
    fks: Seq<ForeignKeyRowSpec>,
    f: ForeignKeyRowSpec,
    t: Seq<char>,
)
    ensures
        tag_columns(cols, fks.push(f), t) == tag_columns(tag_columns(cols, fks, t), seq![f], t),
{
    assert(fks.push(f).drop_last() =~= fks);
    assert(fks.push(f).last() == f);
    assert(seq![f].drop_last() =~= Seq::<ForeignKeyRowSpec>::empty());
    assert(seq![f].last() == f);
    assert forall|c: ColumnDefSpec| #[trigger] tag_column(c, fks.push(f), t) == tag_column(
        tag_column(c, fks, t),
        seq![f],
        t,
    ) by {
        assert(!has_fk(Seq::<ForeignKeyRowSpec>::empty(), t, c.name));
        assert(has_fk(seq![f], t, c.name) == (f.table == t && f.column == c.name));
        assert(has_fk(fks.push(f), t, c.name) == (has_fk(fks, t, c.name) || (f.table == t
            && f.column == c.name)));
    }
    assert(tag_columns(cols, fks.push(f), t) =~= tag_columns(
        tag_columns(cols, fks, t),
        seq![f],
        t,
    ));
}

/// The edges of one more foreign-key row land at the end of a table's
/// relation sequence.
pub proof fn lemma_table_relations_snoc(
    fks: Seq<ForeignKeyRowSpec>,
    f: ForeignKeyRowSpec,
    t: Seq<char>,
)
    ensures
        table_relations(fks.push(f), t) == table_relations(fks, t) + edges_for(t, f),
{
    assert(fks.push(f).drop_last() =~= fks);
    assert(fks.push(f).last() == f);
}

/// Marks every column named by a discovered foreign key.
fn tag_fk_columns(cols: &mut Vec<ColumnDef>, col_name: &String)
    ensures
        cols_view(final(cols)@) == cols_view(old(cols)@).map_values(
            |c: ColumnDefSpec| tag_match(c, col_name@),
        ),
{
    let n = cols.len();
    let mut out: Vec<ColumnDef> = Vec::new();
    let mut j: usize = 0;
    while j < n
        invariant
            n == cols@.len(),
            j <= n,
            out@.len() == j,
            forall|k: int|
                0 <= k < j ==> #[trigger] cols_view(out@)[k] == tag_match(
                    cols_view(cols@)[k],
                    col_name@,
                ),
        decreases n - j,
    {
        let ghost prev_out = out@;
        let c = &cols[j];
        let tagged = c.is_fk || str_eq(c.name.as_str(), col_name.as_str());
        out.push(ColumnDef {
            name: c.name.clone(),
            data_type: c.data_type.clone(),
            is_pk: c.is_pk,
            is_fk: tagged,
        });
        proof {
            assert forall|k: int| 0 <= k < j + 1 implies #[trigger] cols_view(out@)[k]
                == tag_match(cols_view(cols@)[k], col_name@) by {
                assert(cols_view(out@)[k] == out@[k]@);
                assert(cols_view(cols@)[k] == cols@[k]@);
                if k < j {
                    assert(out@[k] == prev_out[k]);
                    assert(cols_view(prev_out)[k] == prev_out[k]@);
                }
            }
        }
        j += 1;
    }
    *cols = out;
    proof {
        assert(cols_view(cols@) =~= cols_view(old(cols)@).map_values(
            |c: ColumnDefSpec| tag_match(c, col_name@),
        ));
    }
}

/// Second pass, one foreign-key row `table.column -> foreign_table.foreign_column`:
/// the source table, when known, gains a `References` edge and has its
/// constrained column tagged; the target table, when known, gains the
/// inverse `ReferencedBy` edge. A table absent from the graph silently
/// skips that side — catalog inconsistency is tolerated, never fatal.
fn apply_fk(entries: &mut Vec<TableEntry>, fk: &ForeignKeyRow)
    requires
        distinct_names(entries_view(old(entries)@)),
    ensures
        entries_view(final(entries)@).len() == entries_view(old(entries)@).len(),
        forall|k: int|
            0 <= k < old(entries)@.len() ==> #[trigger] entries_view(final(entries)@)[k].name
                == entries_view(old(entries)@)[k].name,
        forall|k: int|
            0 <= k < old(entries)@.len() ==> #[trigger] entries_view(
                final(entries)@,
            )[k].data.columns == tag_columns(
                entries_view(old(entries)@)[k].data.columns,
                seq![fk@],
                entries_view(old(entries)@)[k].name,
            ),
        forall|k: int|
            0 <= k < old(entries)@.len() ==> #[trigger] entries_view(
                final(entries)@,
            )[k].data.relations == entries_view(old(entries)@)[k].data.relations + edges_for(
                entries_view(old(entries)@)[k].name,
                fk@,
            ),
{
    let ghost prev = entries_view(entries@);
    let ghost f = fk@;
    let found_src = find_entry(entries, fk.table.as_str());
    match found_src {
        Some(i) => {
            let mut e = entries.remove(i);
            e.data.relations.push(Relation {
                kind: RelationKind::References,
                target_table: fk.foreign_table.clone(),
                source_col: fk.column.clone(),
                target_col: fk.foreign_column.clone(),
            });
            tag_fk_columns(&mut e.data.columns, &fk.column);
            entries.insert(i, e);
            proof {
                lemma_tag_columns_single(prev[i as int].data.columns, f, prev[i as int].name);
                assert(entries_view(entries@) =~~= prev.update(
                    i as int,
                    TableEntrySpec {
                        name: prev[i as int].name,
                        data: TableDataSpec {
                            columns: tag_columns(
                                prev[i as int].data.columns,
                                seq![f],
                                prev[i as int].name,
                            ),
                            relations: prev[i as int].data.relations + seq![references_edge(f)],
                        },
                    },
                ));
            }
        },
        None => {},
    }
    let ghost mid = entries_view(entries@);
    proof {
        assert(mid.len() == prev.len());
        assert forall|k: int| 0 <= k < prev.len() implies #[trigger] mid[k].name
            == prev[k].name by {}
        assert(distinct_names(mid));
    }
    let found_tgt = find_entry(entries, fk.foreign_table.as_str());
    match found_tgt {
        Some(i) => {
            let mut e = entries.remove(i);
            e.data.relations.push(Relation {
                kind: RelationKind::ReferencedBy,
                target_table: fk.table.clone(),
                source_col: fk.foreign_column.clone(),
                target_col: fk.column.clone(),
            });
            entries.insert(i, e);
            proof {
                assert(entries_view(entries@) =~~= mid.update(
                    i as int,
                    TableEntrySpec {
                        name: mid[i as int].name,
                        data: TableDataSpec {
                            columns: mid[i as int].data.columns,
                            relations: mid[i as int].data.relations + seq![referenced_by_edge(f)],
                        },
                    },
                ));
            }
        },
        None => {},
    }
    proof {
        let cur = entries_view(entries@);
        assert forall|k: int| #![trigger cur[k]] 0 <= k < prev.len() implies (cur[k].name
            == prev[k].name && cur[k].data.columns == tag_columns(
            prev[k].data.columns,
            seq![f],
            prev[k].name,
        ) && cur[k].data.relations == prev[k].data.relations + edges_for(prev[k].name, f)) by {
            let t = prev[k].name;
            // Whether this entry is the source of the key.
            let is_src = match found_src {
                Some(i) => k == i as int,
                None => false,
            };
            // Whether this entry is the target of the key.
            let is_tgt = match found_tgt {
                Some(i) => k == i as int,
                None => false,
            };
            if is_src {
                assert(t == f.table);
            } else {
                assert(t != f.table) by {
                    match found_src {
                        Some(i) => {
                            assert(prev[i as int].name == f.table);
                        },
                        None => {},
                    }
                }
                lemma_tag_columns_other(prev[k].data.columns, f, t);
            }
            if is_tgt {
                assert(mid[k].name == f.foreign_table);
                assert(t == f.foreign_table);
            } else {
                assert(t != f.foreign_table) by {
                    match found_tgt {
                        Some(i) => {
                            assert(mid[i as int].name == f.foreign_table);
                        },
                        None => {
                            assert(mid[k].name != f.foreign_table);
                        },
                    }
                }
            }
            if is_src {
                assert(mid[k].data.columns == tag_columns(prev[k].data.columns, seq![f], t));
                assert(cur[k].data.columns == mid[k].data.columns);
            }
            if is_src && is_tgt {
                assert(edges_for(t, f) =~= seq![references_edge(f), referenced_by_edge(f)]);
                assert(cur[k].data.relations =~= prev[k].data.relations + edges_for(t, f));
            } else if is_src {
                assert(edges_for(t, f) =~= seq![references_edge(f)]);
                assert(cur[k].data.relations =~= prev[k].data.relations + edges_for(t, f));
            } else if is_tgt {
                assert(cur[k].data.columns == prev[k].data.columns);
                assert(edges_for(t, f) =~= seq![referenced_by_edge(f)]);
                assert(cur[k].data.relations =~= prev[k].data.relations + edges_for(t, f));
            } else {
                assert(cur[k] == mid[k] && mid[k] == prev[k]);
                assert(edges_for(t, f) =~= Seq::<RelationSpec>::empty());
                assert(cur[k].data.relations =~= prev[k].data.relations + edges_for(t, f));
            }
        }
    }
}

/// Tagging with no foreign-key rows changes nothing.
pub proof fn lemma_tag_columns_empty(cols: Seq<ColumnDefSpec>, t: Seq<char>)
    ensures
        tag_columns(cols, Seq::<ForeignKeyRowSpec>::empty(), t) == cols,
{
    assert forall|c: ColumnDefSpec| #[trigger] tag_column(
        c,
        Seq::<ForeignKeyRowSpec>::empty(),
        t,
    ) == c by {
        assert(!has_fk(Seq::<ForeignKeyRowSpec>::empty(), t, c.name));
    }
    assert(tag_columns(cols, Seq::<ForeignKeyRowSpec>::empty(), t) =~= cols);
}

/// Builds the schema graph from the two catalog result sets.
///
/// The graph has one entry per table named by a column row, in order of
/// first appearance; each entry's columns are the table's column rows in
/// input order, tagged as foreign keys exactly where a foreign-key row
/// constrains them; each entry's relations are exactly the edges the
/// foreign-key rows put on that table, in input order. Assembly never
/// fails: foreign keys naming unknown tables or columns degrade to
/// missing edges or untagged columns.
pub fn assemble(column_rows: &Vec<ColumnRow>, fk_rows: &Vec<ForeignKeyRow>) -> (g: SchemaGraph)
    ensures
        g.wf(),
        names_of(g@) == first_tables(column_rows_view(column_rows@)),
        forall|k: int|
            0 <= k < g@.len() ==> #[trigger] g@[k].data.columns == tag_columns(
                raw_columns(column_rows_view(column_rows@), g@[k].name),
                fk_rows_view(fk_rows@),
                g@[k].name,
            ),
        forall|k: int|
            0 <= k < g@.len() ==> #[trigger] g@[k].data.relations == table_relations(
                fk_rows_view(fk_rows@),
                g@[k].name,
            ),
{
    let ghost rv = column_rows_view(column_rows@);
    let ghost fv = fk_rows_view(fk_rows@);
    let mut entries = build_tables(column_rows);
    let m = fk_rows.len();
    let mut j: usize = 0;
    proof {
        assert(fv.take(0) =~= Seq::<ForeignKeyRowSpec>::empty());
        let base = entries_view(entries@);
        assert forall|k: int| 0 <= k < base.len() implies #[trigger] base[k].data.columns
            == tag_columns(raw_columns(rv, base[k].name), fv.take(0), base[k].name) by {
            lemma_tag_columns_empty(raw_columns(rv, base[k].name), base[k].name);
        }
        assert forall|k: int| 0 <= k < base.len() implies #[trigger] base[k].data.relations
            == table_relations(fv.take(0), base[k].name) by {}
    }
    while j < m
        invariant
            m == fk_rows@.len(),
            rv == column_rows_view(column_rows@),
            fv == fk_rows_view(fk_rows@),
            j <= m,
            distinct_names(entries_view(entries@)),
            names_of(entries_view(entries@)) == first_tables(rv),
            forall|k: int|
                0 <= k < entries@.len() ==> #[trigger] entries_view(entries@)[k].data.columns
                    == tag_columns(
                    raw_columns(rv, entries_view(entries@)[k].name),
                    fv.take(j as int),
                    entries_view(entries@)[k].name,
                ),
            forall|k: int|
                0 <= k < entries@.len() ==> #[trigger] entries_view(entries@)[k].data.relations
                    == table_relations(fv.take(j as int), entries_view(entries@)[k].name),
        decreases m - j,
    {
        let ghost prev = entries_view(entries@);
        let ghost fj = fv[j as int];
        apply_fk(&mut entries, &fk_rows[j]);
        proof {
            let cur = entries_view(entries@);
            let jj = j as int;
            assert(fk_rows@[jj]@ == fj);
            assert(fv.take(jj + 1) =~= fv.take(jj).push(fj));
            assert forall|k: int| #![trigger cur[k]] 0 <= k < cur.len() implies (cur[k].name
                == prev[k].name && cur[k].data.columns == tag_columns(
                raw_columns(rv, cur[k].name),
                fv.take(jj + 1),
                cur[k].name,
            ) && cur[k].data.relations == table_relations(fv.take(jj + 1), cur[k].name)) by {
                let t = prev[k].name;
                assert(cur[k].name == t);
                assert(cur[k].data.columns == tag_columns(prev[k].data.columns, seq![fj], t));
                assert(cur[k].data.relations == prev[k].data.relations + edges_for(t, fj));
                lemma_tag_columns_snoc(raw_columns(rv, t), fv.take(jj), fj, t);
                lemma_table_relations_snoc(fv.take(jj), fj, t);
            }
            assert(names_of(cur) =~= names_of(prev));
        }
        j += 1;
    }
    proof {
        assert(fv.take(m as int) =~= fv);
    }
    SchemaGraph { entries }
}

/// A table's columns are exactly its rows' projections, kept in input
/// order: the filtered column-row subsequence, row by row.
pub proof fn lemma_raw_columns_are_filtered_rows(rows: Seq<ColumnRowSpec>, t: Seq<char>)
    ensures
        raw_columns(rows, t) == rows.filter(|r: ColumnRowSpec| r.table == t).map_values(
            |r: ColumnRowSpec| raw_column(r),
        ),
    decreases rows.len(),
{
    reveal(Seq::filter);
    let pred = |r: ColumnRowSpec| r.table == t;
    let proj = |r: ColumnRowSpec| raw_column(r);
    if rows.len() == 0 {
        assert(raw_columns(rows, t) =~= rows.filter(pred).map_values(proj));
    } else {
        lemma_raw_columns_are_filtered_rows(rows.drop_last(), t);
        let front = rows.drop_last().filter(pred);
        if pred(rows.last()) {
            assert(rows.filter(pred) == front.push(rows.last()));
            assert(front.push(rows.last()).map_values(proj) =~= front.map_values(proj).push(
                raw_column(rows.last()),
            ));
            assert(raw_columns(rows, t) =~= rows.filter(pred).map_values(proj));
        } else {
            assert(rows.filter(pred) == front);
            assert(raw_columns(rows, t) =~= rows.filter(pred).map_values(proj));
        }
    }
}

/// Each table name appears exactly once among the graph's entries: the
/// first-appearance name list is duplicate-free.
pub proof fn lemma_first_tables_distinct(rows: Seq<ColumnRowSpec>)
    ensures
        forall|i: int, j: int|
            0 <= i < j < first_tables(rows).len() ==> first_tables(rows)[i] != first_tables(
                rows,
            )[j],
    decreases rows.len(),
{
    if rows.len() == 0 {
    } else {
        lemma_first_tables_distinct(rows.drop_last());
        let front = first_tables(rows.drop_last());
        let t = rows.last().table;
        if !front.contains(t) {
            assert forall|i: int, j: int|
                0 <= i < j < first_tables(rows).len() implies first_tables(rows)[i]
                != first_tables(rows)[j] by {
                if j == front.len() as int {
                    assert(first_tables(rows)[i] == front[i]);
                    if front[i] == t {
                        assert(front.contains(t));
                    }
                }
            }
        }
    }
}

/// Foreign-key tagging touches only the `is_fk` flag: names, declared
/// types, primary-key flags, and the column order itself are unchanged.
pub proof fn lemma_tagging_keeps_shape(
    cols: Seq<ColumnDefSpec>,
    fks: Seq<ForeignKeyRowSpec>,
    t: Seq<char>,
)
    ensures
        tag_columns(cols, fks, t).len() == cols.len(),
        forall|i: int|
            0 <= i < cols.len() ==> (#[trigger] tag_columns(cols, fks, t)[i].name == cols[i].name
                && tag_columns(cols, fks, t)[i].data_type == cols[i].data_type && tag_columns(
                cols,
                fks,
                t,
            )[i].is_pk == cols[i].is_pk),
{
}

/// A single foreign key `table.column -> foreign_table.foreign_column`
/// yields exactly one `References` edge on its source table and exactly
/// one `ReferencedBy` edge on its target table; a self-referential key
/// puts both on the one table, and every other table gets nothing.
pub proof fn lemma_single_fk_edges(f: ForeignKeyRowSpec, t: Seq<char>)
    ensures
        f.table != f.foreign_table ==> table_relations(seq![f], f.table) == seq![
            references_edge(f),
        ],
        f.table != f.foreign_table ==> table_relations(seq![f], f.foreign_table) == seq![
            referenced_by_edge(f),
        ],
        f.table == f.foreign_table ==> table_relations(seq![f], f.table) == seq![
            references_edge(f),
            referenced_by_edge(f),
        ],
        (t != f.table && t != f.foreign_table) ==> table_relations(seq![f], t) == Seq::<
            RelationSpec,
        >::empty(),
{
    assert(seq![f].drop_last() =~= Seq::<ForeignKeyRowSpec>::empty());
    assert(seq![f].last() == f);
    assert(table_relations(Seq::<ForeignKeyRowSpec>::empty(), f.table)
        == Seq::<RelationSpec>::empty());
    assert(table_relations(Seq::<ForeignKeyRowSpec>::empty(), f.foreign_table)
        == Seq::<RelationSpec>::empty());
    assert(table_relations(Seq::<ForeignKeyRowSpec>::empty(), t) == Seq::<RelationSpec>::empty());
    if f.table != f.foreign_table {
        assert(table_relations(seq![f], f.table) =~= seq![references_edge(f)]);
        assert(table_relations(seq![f], f.foreign_table) =~= seq![referenced_by_edge(f)]);
    } else {
        assert(table_relations(seq![f], f.table) =~= seq![
            references_edge(f),
            referenced_by_edge(f),
        ]);
    }
    if t != f.table && t != f.foreign_table {
        assert(table_relations(seq![f], t) =~= Seq::<RelationSpec>::empty());
    }
}

/// A single discovered foreign key marks the source table's column of
/// that name as a foreign-key column.
pub proof fn lemma_single_fk_tags_column(cols: Seq<ColumnDefSpec>, f: ForeignKeyRowSpec, i: int)
    requires
        0 <= i < cols.len(),
        cols[i].name == f.column,
    ensures
        tag_columns(cols, seq![f], f.table)[i].is_fk,
{
    assert(seq![f].drop_last() =~= Seq::<ForeignKeyRowSpec>::empty());
    assert(seq![f].last() == f);
    assert(has_fk(seq![f], f.table, cols[i].name));
}

/// A column tagged as a foreign key always has a matching `References`
/// edge: whenever some foreign-key row constrains column `name` of table
/// `t`, the table's relations hold a `References` edge whose local column
/// is `name`.
pub proof fn lemma_fk_tag_has_references_edge(
    fks: Seq<ForeignKeyRowSpec>,
    t: Seq<char>,
    name: Seq<char>,
)
    requires
        has_fk(fks, t, name),
    ensures
        exists|i: int|
            0 <= i < table_relations(fks, t).len() && #[trigger] table_relations(fks, t)[i].kind
                == RelationKind::References && table_relations(fks, t)[i].source_col == name,
    decreases fks.len(),
{
    let f = fks.last();
    let rels = table_relations(fks, t);
    let front = table_relations(fks.drop_last(), t);
    if f.table == t && f.column == name {
        assert(edges_for(t, f)[0] == references_edge(f));
        assert(rels[front.len() as int] == references_edge(f));
        assert(rels[front.len() as int].kind == RelationKind::References && rels[front.len()
            as int].source_col == name);
    } else {
        lemma_fk_tag_has_references_edge(fks.drop_last(), t, name);
        let i = choose|i: int|
            0 <= i < front.len() && #[trigger] front[i].kind == RelationKind::References
                && front[i].source_col == name;
        assert(rels[i] == front[i]);
        assert(rels[i].kind == RelationKind::References && rels[i].source_col == name);
    }
}

/// How many `ReferencedBy` edges a relation sequence holds.
pub open spec fn count_referenced_by(rels: Seq<RelationSpec>) -> nat
    decreases rels.len(),
{
    if rels.len() == 0 {
        0
    } else {
        count_referenced_by(rels.drop_last()) + (if rels.last().kind
            == RelationKind::ReferencedBy {
            1nat
        } else {
            0nat
        })
    }
}

/// How many foreign-key rows name table `t` as their target.
pub open spec fn count_fk_targets(fks: Seq<ForeignKeyRowSpec>, t: Seq<char>) -> nat
    decreases fks.len(),
{
    if fks.len() == 0 {
        0
    } else {
        count_fk_targets(fks.drop_last(), t) + (if fks.last().foreign_table == t {
            1nat
        } else {
            0nat
        })
    }
}

proof fn lemma_count_referenced_by_concat(a: Seq<RelationSpec>, b: Seq<RelationSpec>)
    ensures
        count_referenced_by(a + b) == count_referenced_by(a) + count_referenced_by(b),
    decreases b.len(),
{
    if b.len() == 0 {
        assert(a + b =~= a);
    } else {
        assert((a + b).drop_last() =~= a + b.drop_last());
        assert((a + b).last() == b.last());
        lemma_count_referenced_by_concat(a, b.drop_last());
    }
}

/// A table carries exactly one `ReferencedBy` edge per foreign-key row
/// that targets it. In particular a table targeted by no foreign key —
/// for instance one absent from the column set, which gets no entry at
/// all — carries none; an unknown target never raises an error, the edge
/// is simply not placed anywhere.
pub proof fn lemma_referenced_by_count(fks: Seq<ForeignKeyRowSpec>, t: Seq<char>)
    ensures
        count_referenced_by(table_relations(fks, t)) == count_fk_targets(fks, t),
    decreases fks.len(),
{
    if fks.len() == 0 {
    } else {
        let f = fks.last();
        lemma_referenced_by_count(fks.drop_last(), t);
        lemma_count_referenced_by_concat(table_relations(fks.drop_last(), t), edges_for(t, f));
        let e = edges_for(t, f);
        assert(count_referenced_by(Seq::<RelationSpec>::empty()) == 0);
        assert(seq![references_edge(f)].drop_last() =~= Seq::<RelationSpec>::empty());
        assert(seq![referenced_by_edge(f)].drop_last() =~= Seq::<RelationSpec>::empty());
        assert(count_referenced_by(seq![references_edge(f)]) == 0);
        assert(count_referenced_by(seq![referenced_by_edge(f)]) == 1);
        if f.table == t && f.foreign_table == t {
            assert(e =~= seq![references_edge(f), referenced_by_edge(f)]);
            assert(e.drop_last() =~= seq![references_edge(f)]);
            assert(e.last() == referenced_by_edge(f));
        } else if f.table == t {
            assert(e =~= seq![references_edge(f)]);
        } else if f.foreign_table == t {
            assert(e =~= seq![referenced_by_edge(f)]);
        } else {
            assert(e =~= Seq::<RelationSpec>::empty());
        }
        assert(count_referenced_by(e) == (if f.foreign_table == t {
            1nat
        } else {
            0nat
        }));
    }
}

/// A foreign key whose target table is unknown produces no `ReferencedBy`
/// edge at all: with that one key, no table — source included — carries
/// an edge of that kind.
pub proof fn lemma_absent_target_no_referenced_by(f: ForeignKeyRowSpec, t: Seq<char>)
    requires
        t != f.foreign_table,
    ensures
        forall|i: int|
            0 <= i < table_relations(seq![f], t).len() ==> #[trigger] table_relations(
                seq![f],
                t,
            )[i].kind != RelationKind::ReferencedBy,
{
    lemma_single_fk_edges(f, t);
    if t == f.table {
        assert(table_relations(seq![f], t) == seq![references_edge(f)]);
    } else {
        assert(table_relations(seq![f], t) == Seq::<RelationSpec>::empty());
    }
}

} // verus!
