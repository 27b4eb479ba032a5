//! The entity-relationship graph built from a [`Schema`]: one node per
//! table, one edge per foreign key between two tables, and the per-node
//! display state (collapsed flags and the hovered table).

use vstd::prelude::*;

use crate::db::{
    foreign_key_views, table_views, ColumnView, ForeignKeyView, Schema, SchemaView, Table,
    TableView,
};

verus! {

/// The name shown for table `i`: its bare name, qualified by its schema
/// when another table has the same name.
pub open spec fn display_name(tables: Seq<TableView>, i: int) -> Seq<char> {
    if name_is_shared(tables, i) {
        tables[i].schema + "."@ + tables[i].name
    } else {
        tables[i].name
    }
}

/// Some other table has the same name as table `i`.
pub open spec fn name_is_shared(tables: Seq<TableView>, i: int) -> bool {
    exists|j: int| 0 <= j < tables.len() && j != i && (#[trigger] tables[j]).name == tables[i].name
}

/// Table `i` has the key (schema, name).
pub open spec fn has_key(tables: Seq<TableView>, i: int, schema: Seq<char>, name: Seq<char>) -> bool {
    tables[i].schema == schema && tables[i].name == name
}

/// `i` is the last table with the key (schema, name).
pub open spec fn is_last_with_key(
    tables: Seq<TableView>,
    i: int,
    schema: Seq<char>,
    name: Seq<char>,
) -> bool {
    &&& 0 <= i < tables.len()
    &&& has_key(tables, i, schema, name)
    &&& forall|j: int| i < j < tables.len() ==> !#[trigger] has_key(tables, j, schema, name)
}

/// The node of the table with key (schema, name): the last such table when
/// several share the key; none when no table has it.
pub open spec fn node_of(tables: Seq<TableView>, schema: Seq<char>, name: Seq<char>) -> Option<int> {
    if exists|i: int| #[trigger] is_last_with_key(tables, i, schema, name) {
        Some(choose|i: int| #[trigger] is_last_with_key(tables, i, schema, name))
    } else {
        None
    }
}

/// The edge (from node, to node) that a foreign key contributes: none for a
/// self-reference or when either table is not in the graph.
pub open spec fn edge_of(tables: Seq<TableView>, fk: ForeignKeyView) -> Option<(u32, u32)> {
    if fk.is_self() {
        None
    } else {
        match (node_of(tables, fk.from_schema, fk.from_table), node_of(tables, fk.to_schema, fk.to_table)) {
            (Some(from), Some(to)) => Some((from as u32, to as u32)),
            _ => None,
        }
    }
}

/// The elements of `list` separated by `sep`.
pub open spec fn join(list: Seq<Seq<char>>, sep: Seq<char>) -> Seq<char>
    decreases list.len(),
{
    if list.len() == 0 {
        seq![]
    } else if list.len() == 1 {
        list[0]
    } else {
        join(list.drop_last(), sep) + sep + list.last()
    }
}

/// The label of the edge a foreign key contributes: its column names joined
/// by ", ".
pub open spec fn label_of(tables: Seq<TableView>, fk: ForeignKeyView) -> Option<Seq<char>> {
    if edge_of(tables, fk) is Some {
        Some(join(fk.from_columns, ", "@))
    } else {
        None
    }
}


/// The node of the table with key (schema, name), searching from the last
/// table backwards.
fn find_node(tables: &Vec<Table>, schema: &String, name: &String) -> (r: Option<usize>)
    ensures
        match r {
            Some(i) => node_of(table_views(tables@), schema@, name@) == Some(i as int),
            None => node_of(table_views(tables@), schema@, name@) is None,
        },
{
    let ghost ts = table_views(tables@);
    let mut i: usize = tables.len();
    while i > 0
        invariant
            0 <= i <= tables@.len(),
            ts == table_views(tables@),
            forall|j: int| i <= j < ts.len() ==> !#[trigger] has_key(ts, j, schema@, name@),
        decreases i,
    {
        i = i - 1;
        if tables[i].schema == *schema && tables[i].name == *name {
            proof {
                assert(is_last_with_key(ts, i as int, schema@, name@));
                let c = choose|c: int| #[trigger] is_last_with_key(ts, c, schema@, name@);
                if c < i {
                    assert(has_key(ts, i as int, schema@, name@));
                } else if c > i {
                    assert(has_key(ts, c, schema@, name@));
                }
            }
            return Some(i);
        }
    }
    proof {
        assert forall|c: int| !#[trigger] is_last_with_key(ts, c, schema@, name@) by {
            if 0 <= c < ts.len() {
                assert(!has_key(ts, c, schema@, name@));
            }
        }
    }
    None
}

/// The strings of `list` separated by `sep`.
fn join_strings(list: &Vec<String>, sep: &str) -> (r: String)
    ensures
        r@ == join(crate::db::string_views(list@), sep@),
{
    let ghost views = crate::db::string_views(list@);
    let mut r = String::new();
    let mut i: usize = 0;
    while i < list.len()
        invariant
            0 <= i <= list@.len(),
            views == crate::db::string_views(list@),
            r@ == join(views.take(i as int), sep@),
        decreases list@.len() - i,
    {
        if i != 0 {
            r.append(sep);
        }
        r.append(list[i].as_str());
        proof {
            assert(views.take(i + 1).drop_last() =~= views.take(i as int));
            if i == 0 {
                assert(views.take(1) =~= seq![views[0]]);
            }
        }
        i = i + 1;
    }
    assert(views.take(list@.len() as int) =~= views);
    r
}

/// The display name of table `i` of `tables`.
fn compute_display_name(tables: &Vec<Table>, i: usize) -> (r: String)
    requires
        i < tables@.len(),
    ensures
        r@ == display_name(table_views(tables@), i as int),
{
    let ghost ts = table_views(tables@);
    let mut shared = false;
    let mut j: usize = 0;
    while j < tables.len()
        invariant
            0 <= j <= tables@.len(),
            i < tables@.len(),
            ts == table_views(tables@),
            shared == exists|k: int| 0 <= k < j && k != i && (#[trigger] ts[k]).name == ts[i as int].name,
        decreases tables@.len() - j,
    {
        if j != i && tables[j].name == tables[i].name {
            shared = true;
        }
        proof {
            assert(ts[j as int] == tables@[j as int]@);
            assert(ts[i as int] == tables@[i as int]@);
            if !shared {
                assert forall|k: int| 0 <= k < j + 1 && k != i implies (#[trigger] ts[k]).name != ts[i as int].name by {}
            }
        }
        j = j + 1;
    }
    if shared {
        let mut name = tables[i].schema.clone();
        name.append(".");
        name.append(tables[i].name.as_str());
        name
    } else {
        tables[i].name.clone()
    }
}


pub open spec fn edge_fn(tables: Seq<TableView>) -> spec_fn(ForeignKeyView) -> Option<(u32, u32)> {
    |fk: ForeignKeyView| edge_of(tables, fk)
}

pub open spec fn label_fn(tables: Seq<TableView>) -> spec_fn(ForeignKeyView) -> Option<Seq<char>> {
    |fk: ForeignKeyView| label_of(tables, fk)
}

/// The edges of the graph of `tables`: one per foreign key, in order, that
/// joins two different tables that are both in the graph.
pub open spec fn graph_edges(tables: Seq<TableView>, fks: Seq<ForeignKeyView>) -> Seq<(u32, u32)> {
    fks.filter_map(edge_fn(tables))
}

/// The labels of the edges of `graph_edges(tables, fks)`, in the same order.
pub open spec fn graph_edge_labels(tables: Seq<TableView>, fks: Seq<ForeignKeyView>) -> Seq<Seq<char>> {
    fks.filter_map(label_fn(tables))
}

/// A node found by key is a table of the graph.
proof fn lemma_node_of_in_range(tables: Seq<TableView>, schema: Seq<char>, name: Seq<char>)
    ensures
        node_of(tables, schema, name) matches Some(i) ==> 0 <= i < tables.len() && has_key(
            tables,
            i,
            schema,
            name,
        ),
{
}

/// The fully-built ERD: one node per table (node `i` is table `i`), one edge
/// per foreign key between two tables, the display name of each node, and
/// the per-node display state.
#[derive(Debug, Clone)]
pub struct Erd {
    pub tables: Vec<Table>,
    pub display_names: Vec<String>,
    /// The node ids `0..tables.len()`.
    pub nodes: Vec<u32>,
    /// The edges (from node, to node) of the layered graph.
    pub edges: Vec<(u32, u32)>,
    /// Per-edge label (the FK column names), parallel to `edges`.
    pub edge_labels: Vec<String>,
    /// Per-node collapsed state; `false` means the node is fully expanded.
    /// All nodes start out expanded.
    pub collapsed: Vec<bool>,
    /// The table currently under the mouse cursor, if any. While set, edges
    /// to/from that table are highlighted and the rest are dimmed.
    pub hovered_node: Option<u32>,
}

impl Erd {
    /// The per-node and per-edge lists agree in length, and every edge joins
    /// two nodes of the graph.
    pub open spec fn wf(&self) -> bool {
        &&& self.display_names@.len() == self.tables@.len()
        &&& self.nodes@.len() == self.tables@.len()
        &&& self.collapsed@.len() == self.tables@.len()
        &&& self.edge_labels@.len() == self.edges@.len()
        &&& forall|e: int|
            0 <= e < self.edges@.len() ==> (#[trigger] self.edges@[e]).0 < self.tables@.len()
                && self.edges@[e].1 < self.tables@.len()
    }

    /// This ERD is the one built from `schema`: its tables, one node per
    /// table, the display names, one edge (and label) per foreign key
    /// between two tables, every node expanded and none hovered.
    pub open spec fn is_built_from(&self, schema: SchemaView) -> bool {
        &&& schema.tables.len() <= u32::MAX
        &&& self.wf()
        &&& table_views(self.tables@) == schema.tables
        &&& forall|i: int|
            0 <= i < self.display_names@.len() ==> (#[trigger] self.display_names@[i])@
                == display_name(schema.tables, i)
        &&& self.nodes@ == Seq::new(schema.tables.len(), |i: int| i as u32)
        &&& self.edges@ == graph_edges(schema.tables, schema.foreign_keys)
        &&& crate::db::string_views(self.edge_labels@) == graph_edge_labels(
            schema.tables,
            schema.foreign_keys,
        )
        &&& self.collapsed@ == Seq::new(schema.tables.len(), |i: int| false)
        &&& self.hovered_node is None
    }

    /// Both have the same tables, names and graph; only the display state
    /// (collapsed flags, hovered node) may differ.
    pub open spec fn same_graph(&self, other: Erd) -> bool {
        &&& self.tables@ == other.tables@
        &&& self.display_names@ == other.display_names@
        &&& self.nodes@ == other.nodes@
        &&& self.edges@ == other.edges@
        &&& self.edge_labels@ == other.edge_labels@
    }

    /// Assign a node per table and an edge per foreign key.
    pub fn build(schema: &Schema) -> (erd: Erd)
        requires
            schema.tables@.len() <= u32::MAX,
        ensures
            erd.is_built_from(schema@),
    {
        let tables = crate::db::copy_tables(&schema.tables);
        let ghost ts = table_views(schema.tables@);
        let ghost fkv = foreign_key_views(schema.foreign_keys@);
        let n = tables.len();
        assert(table_views(tables@).len() == tables@.len());
        assert(ts.len() == schema.tables@.len());

        let mut display_names: Vec<String> = Vec::new();
        let mut nodes: Vec<u32> = Vec::new();
        let mut collapsed: Vec<bool> = Vec::new();
        let mut i: usize = 0;
        while i < n
            invariant
                0 <= i <= n,
                n == tables@.len(),
                n <= u32::MAX,
                table_views(tables@) == ts,
                display_names@.len() == i,
                nodes@.len() == i,
                collapsed@.len() == i,
                forall|k: int| 0 <= k < i ==> (#[trigger] display_names@[k])@ == display_name(ts, k),
                forall|k: int| 0 <= k < i ==> (#[trigger] nodes@[k]) == k as u32,
                forall|k: int| 0 <= k < i ==> !(#[trigger] collapsed@[k]),
            decreases n - i,
        {
            display_names.push(compute_display_name(&tables, i));
            nodes.push(i as u32);
            collapsed.push(false);
            i = i + 1;
        }

        let mut edges: Vec<(u32, u32)> = Vec::new();
        let mut edge_labels: Vec<String> = Vec::new();
        let mut j: usize = 0;
        while j < schema.foreign_keys.len()
            invariant
                0 <= j <= schema.foreign_keys@.len(),
                n == tables@.len(),
                n <= u32::MAX,
                table_views(tables@) == ts,
                ts == table_views(schema.tables@),
                fkv == foreign_key_views(schema.foreign_keys@),
                edges@ == fkv.take(j as int).filter_map(edge_fn(ts)),
                crate::db::string_views(edge_labels@) == fkv.take(j as int).filter_map(label_fn(ts)),
            decreases schema.foreign_keys@.len() - j,
        {
            let fk = &schema.foreign_keys[j];
            let ghost f = fkv[j as int];
            assert(f == fk@);
            proof {
                fkv.lemma_filter_map_take_succ(edge_fn(ts), j as int);
                fkv.lemma_filter_map_take_succ(label_fn(ts), j as int);
                lemma_node_of_in_range(ts, f.from_schema, f.from_table);
                lemma_node_of_in_range(ts, f.to_schema, f.to_table);
            }
            let ghost old_labels = edge_labels@;
            if !fk.is_self() {
                let from = find_node(&tables, &fk.from_schema, &fk.from_table);
                let to = find_node(&tables, &fk.to_schema, &fk.to_table);
                match (from, to) {
                    (Some(a), Some(b)) => {
                        edges.push((a as u32, b as u32));
                        let label = join_strings(&fk.from_columns, ", ");
                        edge_labels.push(label);
                        assert(crate::db::string_views(edge_labels@) =~= crate::db::string_views(old_labels).push(label@));
                    },
                    _ => {},
                }
            }
            assert(edges@ =~= fkv.take(j + 1).filter_map(edge_fn(ts)));
            assert(crate::db::string_views(edge_labels@) =~= fkv.take(j + 1).filter_map(label_fn(ts)));
            j = j + 1;
        }
        assert(fkv.take(fkv.len() as int) =~= fkv);

        let erd = Erd {
            tables,
            display_names,
            nodes,
            edges,
            edge_labels,
            collapsed,
            hovered_node: None,
        };
        proof {
            assert(erd.nodes@ =~= Seq::new(n as nat, |i: int| i as u32));
            assert(erd.collapsed@ =~= Seq::new(n as nat, |i: int| false));
            assert(erd.edges@.len() == erd.edge_labels@.len()) by {
                assert(crate::db::string_views(erd.edge_labels@).len() == erd.edge_labels@.len());
                lemma_edges_labels_parallel(ts, fkv);
            }
            assert forall|e: int| 0 <= e < erd.edges@.len() implies (#[trigger] erd.edges@[e]).0
                < n && erd.edges@[e].1 < n by {
                lemma_edges_in_range(ts, fkv, e);
            }
        }
        erd
    }
}

/// The edge and label lists have the same length.
proof fn lemma_edges_labels_parallel(tables: Seq<TableView>, fks: Seq<ForeignKeyView>)
    ensures
        graph_edges(tables, fks).len() == graph_edge_labels(tables, fks).len(),
    decreases fks.len(),
{
    if fks.len() > 0 {
        lemma_edges_labels_parallel(tables, fks.drop_last());
    }
}

/// Every edge joins two tables of the graph.
proof fn lemma_edges_in_range(tables: Seq<TableView>, fks: Seq<ForeignKeyView>, e: int)
    requires
        0 <= e < graph_edges(tables, fks).len(),
        tables.len() <= u32::MAX,
    ensures
        graph_edges(tables, fks)[e].0 < tables.len(),
        graph_edges(tables, fks)[e].1 < tables.len(),
    decreases fks.len(),
{
    let rest = fks.drop_last();
    let f = fks.last();
    lemma_node_of_in_range(tables, f.from_schema, f.from_table);
    lemma_node_of_in_range(tables, f.to_schema, f.to_table);
    if e < graph_edges(tables, rest).len() {
        lemma_edges_in_range(tables, rest, e);
    }
}


/// The collapsed flags after node `node` is toggled: its flag flips, and a
/// node that is not in the graph changes nothing.
pub open spec fn toggled(flags: Seq<bool>, node: u32) -> Seq<bool> {
    if node < flags.len() {
        flags.update(node as int, !flags[node as int])
    } else {
        flags
    }
}

/// How an edge relates to the currently hovered table.
#[derive(Debug, Clone, Copy, PartialEq, Eq, Structural)]
pub enum EdgeHighlight {
    /// No node is hovered; edges keep their default look.
    Normal,
    /// The edge leaves the hovered table (the FK / "many" side).
    Outgoing,
    /// The edge enters the hovered table (the referenced / "one" side).
    Incoming,
    /// A different node is hovered; this edge is dimmed.
    Dimmed,
}

/// How `edge` relates to the hovered node `hovered`.
pub open spec fn highlight_of(hovered: Option<u32>, edge: (u32, u32)) -> EdgeHighlight {
    match hovered {
        Some(node) => if edge.0 == node {
            EdgeHighlight::Outgoing
        } else if edge.1 == node {
            EdgeHighlight::Incoming
        } else {
            EdgeHighlight::Dimmed
        },
        None => EdgeHighlight::Normal,
    }
}

/// How a column is drawn: the indicator square and the color of its name.
#[derive(Debug, Clone, Copy, PartialEq, Eq, Structural)]
pub enum ColumnRole {
    /// A primary-key column (filled green key).
    PrimaryKey,
    /// A foreign key that references the column's own table (purple).
    SelfForeignKey,
    /// A foreign key (blue).
    ForeignKey,
    /// Any other column.
    Plain,
}

/// The role of a column with the given flags: a primary key first, then a
/// self-referencing foreign key, then a foreign key.
pub open spec fn role_of(is_pk: bool, is_fk: bool, is_self_fk: bool) -> ColumnRole {
    if is_pk {
        ColumnRole::PrimaryKey
    } else if is_self_fk {
        ColumnRole::SelfForeignKey
    } else if is_fk {
        ColumnRole::ForeignKey
    } else {
        ColumnRole::Plain
    }
}

/// The role of a column with the given flags.
pub fn column_role(is_pk: bool, is_fk: bool, is_self_fk: bool) -> (r: ColumnRole)
    ensures
        r == role_of(is_pk, is_fk, is_self_fk),
{
    if is_pk {
        ColumnRole::PrimaryKey
    } else if is_self_fk {
        ColumnRole::SelfForeignKey
    } else if is_fk {
        ColumnRole::ForeignKey
    } else {
        ColumnRole::Plain
    }
}

impl Erd {
    /// Toggle the collapsed state of a table node.
    pub fn toggle_node(&mut self, node: u32)
        ensures
            final(self).collapsed@ == toggled(old(self).collapsed@, node),
            final(self).tables@ == old(self).tables@,
            final(self).display_names@ == old(self).display_names@,
            final(self).nodes@ == old(self).nodes@,
            final(self).edges@ == old(self).edges@,
            final(self).edge_labels@ == old(self).edge_labels@,
            final(self).hovered_node == old(self).hovered_node,
            old(self).wf() ==> final(self).wf(),
    {
        let i = node as usize;
        if i < self.collapsed.len() {
            let flag = self.collapsed[i];
            self.collapsed.set(i, !flag);
        }
    }

    /// Set the collapsed state of every table node at once.
    pub fn set_all_collapsed(&mut self, collapsed: bool)
        ensures
            final(self).collapsed@ == Seq::new(old(self).collapsed@.len(), |i: int| collapsed),
            final(self).tables@ == old(self).tables@,
            final(self).display_names@ == old(self).display_names@,
            final(self).nodes@ == old(self).nodes@,
            final(self).edges@ == old(self).edges@,
            final(self).edge_labels@ == old(self).edge_labels@,
            final(self).hovered_node == old(self).hovered_node,
            old(self).wf() ==> final(self).wf(),
    {
        let n = self.collapsed.len();
        let mut i: usize = 0;
        while i < n
            invariant
                0 <= i <= n,
                n == old(self).collapsed@.len(),
                self.collapsed@.len() == n,
                forall|k: int| 0 <= k < i ==> #[trigger] self.collapsed@[k] == collapsed,
                self.tables@ == old(self).tables@,
                self.display_names@ == old(self).display_names@,
                self.nodes@ == old(self).nodes@,
                self.edges@ == old(self).edges@,
                self.edge_labels@ == old(self).edge_labels@,
                self.hovered_node == old(self).hovered_node,
            decreases n - i,
        {
            self.collapsed.set(i, collapsed);
            i = i + 1;
        }
        assert(self.collapsed@ =~= Seq::new(n as nat, |i: int| collapsed));
    }

    /// How `edge` relates to the currently hovered table.
    pub fn edge_highlight(&self, edge: (u32, u32)) -> (h: EdgeHighlight)
        ensures
            h == highlight_of(self.hovered_node, edge),
    {
        match self.hovered_node {
            Some(node) => {
                if edge.0 == node {
                    EdgeHighlight::Outgoing
                } else if edge.1 == node {
                    EdgeHighlight::Incoming
                } else {
                    EdgeHighlight::Dimmed
                }
            },
            None => EdgeHighlight::Normal,
        }
    }
}


// Node layout metrics, in tenths of a layout unit. With a monospace font a
// character is 0.6 of the font size wide: 14 for headers, 13 for column
// names, 12 for column types.
pub const HEADER_CHAR_TENTHS: u128 = 84;
pub const BODY_CHAR_TENTHS: u128 = 78;
pub const TYPE_CHAR_TENTHS: u128 = 72;
pub const H_PADDING_TENTHS: u128 = 120;
pub const HEADER_H_TENTHS: u128 = 300;
pub const ROW_H_TENTHS: u128 = 250;
pub const BODY_BOTTOM_TENTHS: u128 = 80;
pub const INDICATOR_W_TENTHS: u128 = 120;
pub const INDICATOR_GAP_TENTHS: u128 = 90;
pub const NAME_TYPE_GAP_TENTHS: u128 = 140;
pub const TOGGLE_SPACE_TENTHS: u128 = 340;
pub const MIN_NODE_WIDTH_TENTHS: u128 = 1500;

pub open spec fn max(a: int, b: int) -> int {
    if a >= b {
        a
    } else {
        b
    }
}

/// The estimated width of a column row.
pub open spec fn column_width_tenths(c: ColumnView) -> int {
    INDICATOR_W_TENTHS + INDICATOR_GAP_TENTHS + c.name.len() * BODY_CHAR_TENTHS
        + NAME_TYPE_GAP_TENTHS + c.data_type.len() * TYPE_CHAR_TENTHS
}

/// The widest of the header width `header` and the first `n` column rows.
pub open spec fn content_width_tenths(header: int, columns: Seq<ColumnView>, n: int) -> int
    decreases n,
{
    if n <= 0 {
        header
    } else {
        max(content_width_tenths(header, columns, n - 1), column_width_tenths(columns[n - 1]))
    }
}

/// The estimated width of a node: its widest line (the header reserves
/// room for the toggle button) plus padding, at least the minimum width.
pub open spec fn node_width_tenths(display: Seq<char>, table: TableView) -> int {
    max(
        content_width_tenths(
            display.len() * HEADER_CHAR_TENTHS + TOGGLE_SPACE_TENTHS,
            table.columns,
            table.columns.len() as int,
        ) + 2 * H_PADDING_TENTHS,
        MIN_NODE_WIDTH_TENTHS as int,
    )
}

/// The height of a node: the header alone when collapsed, else the header,
/// one row per column and the bottom padding.
pub open spec fn node_height_tenths(table: TableView, collapsed: bool) -> int {
    if collapsed {
        HEADER_H_TENTHS as int
    } else {
        HEADER_H_TENTHS + table.columns.len() * ROW_H_TENTHS + BODY_BOTTOM_TENTHS
    }
}

impl Erd {
    /// Estimated size (width, height) of node `node` in tenths of a layout
    /// unit, used before measurement refines it.
    pub fn node_size(&self, node: u32) -> (size: (u128, u128))
        requires
            self.wf(),
            node < self.tables@.len(),
        ensures
            size.0 == node_width_tenths(self.display_names@[node as int]@, self.tables@[node as int]@),
            size.1 == node_height_tenths(self.tables@[node as int]@, self.collapsed@[node as int]),
    {
        let i = node as usize;
        let table = &self.tables[i];
        let name_len = self.display_names[i].as_str().unicode_len() as u128;
        let mut content_width: u128 = name_len * HEADER_CHAR_TENTHS + TOGGLE_SPACE_TENTHS;
        let ghost header = content_width as int;
        let ghost columns = table@.columns;
        let mut k: usize = 0;
        while k < table.columns.len()
            invariant
                0 <= k <= table.columns@.len(),
                columns == table@.columns,
                columns.len() == table.columns@.len(),
                header == name_len * HEADER_CHAR_TENTHS + TOGGLE_SPACE_TENTHS,
                name_len <= usize::MAX,
                content_width == content_width_tenths(header, columns, k as int),
                content_width <= usize::MAX * 200 + 1000,
            decreases table.columns@.len() - k,
        {
            let column = &table.columns[k];
            assert(columns[k as int] == column@);
            let width = INDICATOR_W_TENTHS + INDICATOR_GAP_TENTHS
                + (column.name.as_str().unicode_len() as u128) * BODY_CHAR_TENTHS
                + NAME_TYPE_GAP_TENTHS
                + (column.data_type.as_str().unicode_len() as u128) * TYPE_CHAR_TENTHS;
            if width > content_width {
                content_width = width;
            }
            k = k + 1;
        }
        let padded = content_width + 2 * H_PADDING_TENTHS;
        let width = if padded >= MIN_NODE_WIDTH_TENTHS {
            padded
        } else {
            MIN_NODE_WIDTH_TENTHS
        };
        let height = if self.collapsed[i] {
            HEADER_H_TENTHS
        } else {
            HEADER_H_TENTHS + (table.columns.len() as u128) * ROW_H_TENTHS + BODY_BOTTOM_TENTHS
        };
        (width, height)
    }
}


/// Toggling a node twice restores every collapsed flag.
pub proof fn law_toggle_twice_restores(flags: Seq<bool>, node: u32)
    ensures
        toggled(toggled(flags, node), node) == flags,
{
    assert(toggled(toggled(flags, node), node) =~= flags);
}

/// No edge joins a node to itself: self-references are not drawn as edges,
/// and two different keys never resolve to the same node.
pub proof fn law_no_self_loops(tables: Seq<TableView>, fks: Seq<ForeignKeyView>)
    requires
        tables.len() <= u32::MAX,
    ensures
        forall|e: int|
            0 <= e < graph_edges(tables, fks).len() ==> (#[trigger] graph_edges(tables, fks)[e]).0
                != graph_edges(tables, fks)[e].1,
    decreases fks.len(),
{
    if fks.len() > 0 {
        let rest = fks.drop_last();
        let f = fks.last();
        law_no_self_loops(tables, rest);
        lemma_node_of_in_range(tables, f.from_schema, f.from_table);
        lemma_node_of_in_range(tables, f.to_schema, f.to_table);
        if let (Some(a), Some(b)) = (node_of(tables, f.from_schema, f.from_table), node_of(tables, f.to_schema, f.to_table)) {
            if !f.is_self() {
                assert(a != b);
                assert(a as u32 != b as u32);
            }
        }
        assert forall|e: int| 0 <= e < graph_edges(tables, fks).len() implies (
        #[trigger] graph_edges(tables, fks)[e]).0 != graph_edges(tables, fks)[e].1 by {
            if e < graph_edges(tables, rest).len() {
                assert(graph_edges(tables, fks)[e] == graph_edges(tables, rest)[e]);
            }
        }
    }
}

/// Every edge of the graph leaves the table its foreign key is declared on
/// and enters the table it references.
pub proof fn law_edges_follow_foreign_keys(tables: Seq<TableView>, fks: Seq<ForeignKeyView>)
    requires
        tables.len() <= u32::MAX,
    ensures
        forall|e: int|
            0 <= e < graph_edges(tables, fks).len() ==> exists|j: int|
                0 <= j < fks.len() && has_key(
                    tables,
                    (#[trigger] graph_edges(tables, fks)[e]).0 as int,
                    fks[j].from_schema,
                    fks[j].from_table,
                ) && has_key(tables, graph_edges(tables, fks)[e].1 as int, fks[j].to_schema, fks[j].to_table),
    decreases fks.len(),
{
    if fks.len() > 0 {
        let rest = fks.drop_last();
        let f = fks.last();
        law_edges_follow_foreign_keys(tables, rest);
        lemma_node_of_in_range(tables, f.from_schema, f.from_table);
        lemma_node_of_in_range(tables, f.to_schema, f.to_table);
        assert forall|e: int| 0 <= e < graph_edges(tables, fks).len() implies exists|j: int|
            0 <= j < fks.len() && has_key(
                tables,
                (#[trigger] graph_edges(tables, fks)[e]).0 as int,
                fks[j].from_schema,
                fks[j].from_table,
            ) && has_key(tables, graph_edges(tables, fks)[e].1 as int, fks[j].to_schema, fks[j].to_table) by {
            if e < graph_edges(tables, rest).len() {
                assert(graph_edges(tables, fks)[e] == graph_edges(tables, rest)[e]);
                let j = choose|j: int|
                    0 <= j < rest.len() && has_key(
                        tables,
                        (#[trigger] graph_edges(tables, rest)[e]).0 as int,
                        rest[j].from_schema,
                        rest[j].from_table,
                    ) && has_key(tables, graph_edges(tables, rest)[e].1 as int, rest[j].to_schema, rest[j].to_table);
                assert(rest[j] == fks[j]);
            } else {
                assert(fks[fks.len() - 1] == f);
            }
        }
    }
}

/// Display names tell tables apart: when no two tables share both schema
/// and name, and no table name contains a `.`, the display names are
/// pairwise distinct.
pub proof fn law_display_names_distinct(tables: Seq<TableView>)
    requires
        forall|i: int, j: int|
            0 <= i < j < tables.len() ==> table_key_differs(#[trigger] tables[i], #[trigger] tables[j]),
        forall|i: int| 0 <= i < tables.len() ==> !(#[trigger] tables[i]).name.contains('.'),
    ensures
        forall|i: int, j: int|
            0 <= i < j < tables.len() ==> display_name(tables, i) != display_name(tables, j),
{
    reveal_strlit(".");
    assert forall|i: int, j: int| 0 <= i < j < tables.len() implies display_name(tables, i)
        != display_name(tables, j) by {
        let ti = tables[i];
        let tj = tables[j];
        assert(table_key_differs(ti, tj));
        let di = display_name(tables, i);
        let dj = display_name(tables, j);
        if name_is_shared(tables, i) && name_is_shared(tables, j) {
            if di == dj {
                lemma_qualified_split(ti.schema, ti.name);
                lemma_qualified_split(tj.schema, tj.name);
                assert(ti.name == tj.name);
                assert(ti.schema.len() == tj.schema.len());
                assert(ti.schema =~= di.subrange(0, ti.schema.len() as int));
                assert(tj.schema =~= dj.subrange(0, tj.schema.len() as int));
            }
        } else if name_is_shared(tables, i) {
            assert(di[ti.schema.len() as int] == '.');
            if di == dj {
                assert(tj.name.contains('.'));
            }
        } else if name_is_shared(tables, j) {
            assert(dj[tj.schema.len() as int] == '.');
            if di == dj {
                assert(ti.name.contains('.'));
            }
        } else {
            if di == dj {
                assert(tables[j].name == tables[i].name);
            }
        }
    }
}

/// Two tables differ in schema or in name.
pub open spec fn table_key_differs(a: TableView, b: TableView) -> bool {
    a.schema != b.schema || a.name != b.name
}

/// In `schema.name` with a dot-free name, the name is what follows the last
/// dot.
proof fn lemma_qualified_split(schema: Seq<char>, name: Seq<char>)
    requires
        !name.contains('.'),
    ensures
        crate::text::after_last(schema + "."@ + name, '.') == name,
{
    reveal_strlit(".");
    let q = schema + "."@ + name;
    let p = schema.len() as int;
    assert(q[p] == '.');
    assert forall|k: int| p < k < q.len() implies q[k] != '.' by {
        assert(q[k] == name[k - p - 1]);
    }
    crate::text::lemma_after_last(q, '.', p);
    assert(q.subrange(p + 1, q.len() as int) =~= name);
}


/// When some table has the key, a last one does.
proof fn lemma_last_with_key_exists(tables: Seq<TableView>, schema: Seq<char>, name: Seq<char>, i: int)
    requires
        0 <= i < tables.len(),
        has_key(tables, i, schema, name),
    ensures
        node_of(tables, schema, name) is Some,
    decreases tables.len() - i,
{
    if forall|j: int| i < j < tables.len() ==> !#[trigger] has_key(tables, j, schema, name) {
        assert(is_last_with_key(tables, i, schema, name));
    } else {
        let j = choose|j: int| i < j < tables.len() && #[trigger] has_key(tables, j, schema, name);
        lemma_last_with_key_exists(tables, schema, name, j);
    }
}

/// Every foreign key that is not a self-reference and whose two tables are
/// both in the schema (in any schemas, the same or different) gets an edge
/// from a table with its from-key to a table with its to-key, labelled by
/// its column names joined with ", ".
pub proof fn law_every_foreign_key_between_tables_has_an_edge(
    tables: Seq<TableView>,
    fks: Seq<ForeignKeyView>,
    j: int,
    from: int,
    to: int,
)
    requires
        tables.len() <= u32::MAX,
        0 <= j < fks.len(),
        !(fks[j].from_schema == fks[j].to_schema && fks[j].from_table == fks[j].to_table),
        0 <= from < tables.len(),
        0 <= to < tables.len(),
        tables[from].schema == fks[j].from_schema,
        tables[from].name == fks[j].from_table,
        tables[to].schema == fks[j].to_schema,
        tables[to].name == fks[j].to_table,
    ensures
        exists|e: int|
            0 <= e < graph_edges(tables, fks).len() && e < graph_edge_labels(tables, fks).len()
                && tables[(#[trigger] graph_edges(tables, fks)[e]).0 as int].schema == fks[j].from_schema
                && tables[graph_edges(tables, fks)[e].0 as int].name == fks[j].from_table
                && tables[graph_edges(tables, fks)[e].1 as int].schema == fks[j].to_schema
                && tables[graph_edges(tables, fks)[e].1 as int].name == fks[j].to_table
                && graph_edge_labels(tables, fks)[e] == join(fks[j].from_columns, ", "@),
    decreases fks.len(),
{
    let rest = fks.drop_last();
    lemma_edges_labels_parallel(tables, rest);
    lemma_edges_labels_parallel(tables, fks);
    if j < fks.len() - 1 {
        assert(rest[j] == fks[j]);
        law_every_foreign_key_between_tables_has_an_edge(tables, rest, j, from, to);
        let e = choose|e: int|
            0 <= e < graph_edges(tables, rest).len() && e < graph_edge_labels(tables, rest).len()
                && tables[(#[trigger] graph_edges(tables, rest)[e]).0 as int].schema == rest[j].from_schema
                && tables[graph_edges(tables, rest)[e].0 as int].name == rest[j].from_table
                && tables[graph_edges(tables, rest)[e].1 as int].schema == rest[j].to_schema
                && tables[graph_edges(tables, rest)[e].1 as int].name == rest[j].to_table
                && graph_edge_labels(tables, rest)[e] == join(rest[j].from_columns, ", "@);
        assert(graph_edges(tables, fks)[e] == graph_edges(tables, rest)[e]);
        assert(graph_edge_labels(tables, fks)[e] == graph_edge_labels(tables, rest)[e]);
    } else {
        let f = fks.last();
        assert(f == fks[j]);
        assert(has_key(tables, from, f.from_schema, f.from_table));
        assert(has_key(tables, to, f.to_schema, f.to_table));
        lemma_last_with_key_exists(tables, f.from_schema, f.from_table, from);
        lemma_last_with_key_exists(tables, f.to_schema, f.to_table, to);
        lemma_node_of_in_range(tables, f.from_schema, f.from_table);
        lemma_node_of_in_range(tables, f.to_schema, f.to_table);
        let e = graph_edges(tables, rest).len() as int;
        let a = node_of(tables, f.from_schema, f.from_table)->Some_0;
        let b = node_of(tables, f.to_schema, f.to_table)->Some_0;
        assert(graph_edges(tables, fks)[e] == (a as u32, b as u32));
        assert(graph_edge_labels(tables, fks)[e] == join(f.from_columns, ", "@));
        assert(a as u32 as int == a);
        assert(b as u32 as int == b);
    }
}

/// The estimated width of a node is its widest line plus padding, but at
/// least the minimum width: it is at least the header line (the name at 8.4
/// per character plus the toggle button) plus padding, at least every column
/// line (indicator, gap, name at 7.8 per character, gap, type at 7.2 per
/// character) plus padding, at least the minimum, and equal to one of these.
/// The height is the header alone when collapsed, else the header, 25 per
/// column and the bottom padding.
pub proof fn law_node_size_bounds(display: Seq<char>, table: TableView, collapsed: bool)
    ensures
        node_width_tenths(display, table) >= display.len() * 84 + 340 + 240,
        node_width_tenths(display, table) >= 1500,
        forall|c: int|
            0 <= c < table.columns.len() ==> node_width_tenths(display, table) >= 120 + 90
                + (#[trigger] table.columns[c]).name.len() * 78 + 140 + table.columns[c].data_type.len()
                * 72 + 240,
        node_width_tenths(display, table) == 1500 || node_width_tenths(display, table)
            == display.len() * 84 + 340 + 240 || exists|c: int|
            0 <= c < table.columns.len() && node_width_tenths(display, table) == 120 + 90
                + (#[trigger] table.columns[c]).name.len() * 78 + 140 + table.columns[c].data_type.len()
                * 72 + 240,
        collapsed ==> node_height_tenths(table, collapsed) == 300,
        !collapsed ==> node_height_tenths(table, collapsed) == 300 + table.columns.len() * 250 + 80,
{
    let header: int = (display.len() * 84 + 340) as int;
    lemma_content_width(header, table.columns, table.columns.len() as int);
}

/// The content width is at least the header and every one of the first `n`
/// column lines, and equal to one of them.
proof fn lemma_content_width(header: int, columns: Seq<ColumnView>, n: int)
    requires
        0 <= n <= columns.len(),
    ensures
        content_width_tenths(header, columns, n) >= header,
        forall|c: int|
            0 <= c < n ==> content_width_tenths(header, columns, n) >= 120 + 90
                + (#[trigger] columns[c]).name.len() * 78 + 140 + columns[c].data_type.len() * 72,
        content_width_tenths(header, columns, n) == header || exists|c: int|
            0 <= c < n && content_width_tenths(header, columns, n) == 120 + 90
                + (#[trigger] columns[c]).name.len() * 78 + 140 + columns[c].data_type.len() * 72,
    decreases n,
{
    if n > 0 {
        lemma_content_width(header, columns, n - 1);
        if content_width_tenths(header, columns, n) != content_width_tenths(header, columns, n - 1) {
            let c = n - 1;
            assert(content_width_tenths(header, columns, n) == 120 + 90 + columns[c].name.len() * 78
                + 140 + columns[c].data_type.len() * 72);
        }
    }
}

/// A primary-key column is drawn as a primary key whatever its foreign-key
/// flags; otherwise a self-referencing foreign key is drawn as one, then a
/// foreign key; a column with no flag is plain. Each role is drawn only for
/// columns with the matching flag.
pub proof fn law_column_role_priority(is_pk: bool, is_fk: bool, is_self_fk: bool)
    ensures
        is_pk ==> role_of(is_pk, is_fk, is_self_fk) == ColumnRole::PrimaryKey,
        !is_pk && is_self_fk ==> role_of(is_pk, is_fk, is_self_fk) == ColumnRole::SelfForeignKey,
        !is_pk && !is_self_fk && is_fk ==> role_of(is_pk, is_fk, is_self_fk)
            == ColumnRole::ForeignKey,
        !is_pk && !is_self_fk && !is_fk ==> role_of(is_pk, is_fk, is_self_fk) == ColumnRole::Plain,
        role_of(is_pk, is_fk, is_self_fk) == ColumnRole::PrimaryKey ==> is_pk,
        role_of(is_pk, is_fk, is_self_fk) == ColumnRole::SelfForeignKey ==> is_self_fk,
        role_of(is_pk, is_fk, is_self_fk) == ColumnRole::ForeignKey ==> is_fk,
{
}


/// A table is shown by its bare name when no other table has that name,
/// and as `schema.name` when another one does.
pub proof fn law_display_name_qualifies_shared_names(tables: Seq<TableView>, i: int)
    requires
        0 <= i < tables.len(),
    ensures
        (forall|j: int| 0 <= j < tables.len() && j != i ==> (#[trigger] tables[j]).name != tables[i].name)
            ==> display_name(tables, i) == tables[i].name,
        (exists|j: int| 0 <= j < tables.len() && j != i && (#[trigger] tables[j]).name == tables[i].name)
            ==> display_name(tables, i) == tables[i].schema + "."@ + tables[i].name,
{
}

/// A key resolves to the last table that has it, and to nothing when no
/// table has it.
pub proof fn law_key_resolves_to_last_table(tables: Seq<TableView>, schema: Seq<char>, name: Seq<char>)
    ensures
        node_of(tables, schema, name) matches Some(i) ==> 0 <= i < tables.len() && tables[i].schema
            == schema && tables[i].name == name && forall|j: int|
            i < j < tables.len() ==> !(#[trigger] tables[j].schema == schema && tables[j].name == name),
        node_of(tables, schema, name) is None ==> forall|j: int|
            0 <= j < tables.len() ==> !(#[trigger] tables[j].schema == schema && tables[j].name == name),
{
    if node_of(tables, schema, name) is Some {
        lemma_node_of_in_range(tables, schema, name);
        let i = node_of(tables, schema, name)->Some_0;
        assert forall|j: int| i < j < tables.len() implies !(#[trigger] tables[j].schema == schema
            && tables[j].name == name) by {
            assert(!has_key(tables, j, schema, name));
        }
    } else {
        assert forall|j: int| 0 <= j < tables.len() implies !(#[trigger] tables[j].schema == schema
            && tables[j].name == name) by {
            if tables[j].schema == schema && tables[j].name == name {
                lemma_last_with_key_exists(tables, schema, name, j);
            }
        }
    }
}

/// A freshly built ERD keeps the schema's tables, numbers its nodes
/// `0..n` in table order, has one display name and one collapsed flag per
/// table, every node expanded, nothing hovered, and one label per edge.
pub proof fn law_built_erd_state(erd: Erd, schema: SchemaView)
    requires
        erd.is_built_from(schema),
    ensures
        erd.tables@.len() == schema.tables.len(),
        forall|i: int| 0 <= i < erd.tables@.len() ==> (#[trigger] erd.tables@[i])@ == schema.tables[i],
        erd.nodes@.len() == schema.tables.len(),
        forall|i: int| 0 <= i < erd.nodes@.len() ==> #[trigger] erd.nodes@[i] as int == i,
        erd.display_names@.len() == schema.tables.len(),
        erd.collapsed@.len() == schema.tables.len(),
        forall|i: int| 0 <= i < erd.collapsed@.len() ==> !#[trigger] erd.collapsed@[i],
        erd.hovered_node is None,
        erd.edge_labels@.len() == erd.edges@.len(),
        erd.edges@.len() <= schema.foreign_keys.len(),
{
    assert(table_views(erd.tables@).len() == erd.tables@.len());
    assert forall|i: int| 0 <= i < erd.tables@.len() implies (#[trigger] erd.tables@[i])@ == schema.tables[i] by {
        assert(table_views(erd.tables@)[i] == erd.tables@[i]@);
    }
    lemma_filter_map_len(schema.foreign_keys, edge_fn(schema.tables));
    assert forall|i: int| 0 <= i < erd.nodes@.len() implies #[trigger] erd.nodes@[i] as int == i by {
        assert(erd.nodes@[i] == i as u32);
    }
}

proof fn lemma_filter_map_len<A, B>(s: Seq<A>, f: spec_fn(A) -> Option<B>)
    ensures
        s.filter_map(f).len() <= s.len(),
    decreases s.len(),
{
    if s.len() > 0 {
        lemma_filter_map_len(s.drop_last(), f);
    }
}

/// Toggling flips exactly the toggled node's flag, leaves every other flag
/// and the number of flags as they were, and ignores a node outside the
/// graph.
pub proof fn law_toggle_flips_one_flag(flags: Seq<bool>, node: u32)
    ensures
        toggled(flags, node).len() == flags.len(),
        node < flags.len() ==> toggled(flags, node)[node as int] == !flags[node as int],
        forall|i: int| 0 <= i < flags.len() && i != node ==> #[trigger] toggled(flags, node)[i] == flags[i],
{
}

/// With nothing hovered no edge is highlighted; with a node hovered, the
/// edges leaving it are outgoing, the others entering it incoming, and all
/// other edges dimmed.
pub proof fn law_highlight_follows_hover(hovered: Option<u32>, edge: (u32, u32))
    ensures
        hovered is None <==> highlight_of(hovered, edge) == EdgeHighlight::Normal,
        highlight_of(hovered, edge) == EdgeHighlight::Outgoing <==> hovered == Some(edge.0),
        highlight_of(hovered, edge) == EdgeHighlight::Incoming <==> hovered == Some(edge.1)
            && edge.0 != edge.1,
        highlight_of(hovered, edge) == EdgeHighlight::Dimmed <==> hovered is Some && hovered
            != Some(edge.0) && hovered != Some(edge.1),
{
}

} // verus!
