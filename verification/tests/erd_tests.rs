use pgerd::db::{sample, Column, ForeignKey, Schema, Table};
use pgerd::erd::{column_role, ColumnRole, EdgeHighlight, Erd};

fn column(name: &str, ty: &str) -> Column {
    Column {
        name: name.to_string(),
        data_type: ty.to_string(),
        is_primary_key: false,
        is_foreign_key: false,
        is_self_foreign_key: false,
    }
}

fn table(schema: &str, name: &str, columns: Vec<Column>) -> Table {
    Table { schema: schema.to_string(), name: name.to_string(), columns }
}

fn fk(from: (&str, &str), to: (&str, &str), columns: Vec<&str>) -> ForeignKey {
    ForeignKey {
        from_schema: from.0.to_string(),
        from_table: from.1.to_string(),
        to_schema: to.0.to_string(),
        to_table: to.1.to_string(),
        from_columns: columns.into_iter().map(|s| s.to_string()).collect(),
    }
}

#[test]
fn build_sample_graph() {
    let erd = Erd::build(&sample());
    assert_eq!(erd.nodes, vec![0, 1, 2, 3]);
    assert_eq!(erd.edges, vec![(1, 0), (2, 1), (2, 0)]);
    assert_eq!(erd.edge_labels, vec!["user_id", "post_id", "user_id"]);
    assert_eq!(erd.display_names, vec!["users", "posts", "comments", "categories"]);
    assert_eq!(erd.collapsed, vec![false; 4]);
    assert_eq!(erd.hovered_node, None);
    assert_eq!(erd.tables.len(), 4);
    assert_eq!(erd.tables[3].name, "categories");
}

#[test]
fn ambiguous_names_are_qualified_by_schema() {
    let schema = Schema {
        tables: vec![
            table("public", "users", vec![column("id", "int")]),
            table("audit", "users", vec![column("id", "int")]),
            table("public", "posts", vec![column("id", "int")]),
        ],
        foreign_keys: vec![],
    };
    let erd = Erd::build(&schema);
    assert_eq!(erd.display_names, vec!["public.users", "audit.users", "posts"]);
}

#[test]
fn display_names_are_distinct_for_distinct_keys() {
    let schema = Schema {
        tables: vec![
            table("a", "t", vec![]),
            table("b", "t", vec![]),
            table("a.b", "t", vec![]),
            table("a", "u", vec![]),
        ],
        foreign_keys: vec![],
    };
    let erd = Erd::build(&schema);
    for i in 0..erd.display_names.len() {
        for j in (i + 1)..erd.display_names.len() {
            assert_ne!(erd.display_names[i], erd.display_names[j]);
        }
    }
}

#[test]
fn edges_skip_self_references_and_unknown_tables() {
    let schema = Schema {
        tables: vec![
            table("s", "a", vec![column("id", "int")]),
            table("s", "b", vec![column("a_id", "int"), column("a_id2", "int")]),
        ],
        foreign_keys: vec![
            fk(("s", "b"), ("s", "a"), vec!["a_id", "a_id2"]),
            fk(("s", "a"), ("s", "a"), vec!["id"]),
            fk(("s", "b"), ("s", "missing"), vec!["a_id"]),
            fk(("x", "b"), ("s", "a"), vec!["a_id"]),
            fk(("s", "a"), ("s", "b"), vec![]),
        ],
    };
    let erd = Erd::build(&schema);
    assert_eq!(erd.edges, vec![(1, 0), (0, 1)]);
    assert_eq!(erd.edge_labels, vec!["a_id, a_id2", ""]);
    for e in &erd.edges {
        assert_ne!(e.0, e.1);
    }
}

#[test]
fn duplicate_keys_resolve_to_the_last_table() {
    let schema = Schema {
        tables: vec![
            table("s", "a", vec![]),
            table("s", "b", vec![]),
            table("s", "a", vec![]),
        ],
        foreign_keys: vec![fk(("s", "b"), ("s", "a"), vec!["c"])],
    };
    let erd = Erd::build(&schema);
    assert_eq!(erd.edges, vec![(1, 2)]);
    assert_eq!(erd.display_names, vec!["s.a", "b", "s.a"]);
}

#[test]
fn toggle_node_flips_one_flag_and_twice_restores() {
    let mut erd = Erd::build(&sample());
    erd.toggle_node(2);
    assert_eq!(erd.collapsed, vec![false, false, true, false]);
    erd.toggle_node(2);
    assert_eq!(erd.collapsed, vec![false; 4]);
    erd.toggle_node(7);
    assert_eq!(erd.collapsed, vec![false; 4]);
}

#[test]
fn set_all_collapsed_sets_every_flag() {
    let mut erd = Erd::build(&sample());
    erd.toggle_node(1);
    erd.set_all_collapsed(true);
    assert_eq!(erd.collapsed, vec![true; 4]);
    erd.set_all_collapsed(false);
    assert_eq!(erd.collapsed, vec![false; 4]);
    assert_eq!(erd.edges, vec![(1, 0), (2, 1), (2, 0)]);
}

#[test]
fn edge_highlight_follows_the_hovered_node() {
    let mut erd = Erd::build(&sample());
    assert_eq!(erd.edge_highlight((1, 0)), EdgeHighlight::Normal);
    erd.hovered_node = Some(1);
    assert_eq!(erd.edge_highlight((1, 0)), EdgeHighlight::Outgoing);
    assert_eq!(erd.edge_highlight((2, 1)), EdgeHighlight::Incoming);
    assert_eq!(erd.edge_highlight((2, 0)), EdgeHighlight::Dimmed);
}

#[test]
fn node_size_in_tenths() {
    let mut erd = Erd::build(&sample());
    // "users": widest line is "email text" (1028) + padding 240 < minimum 1500.
    assert_eq!(erd.node_size(0), (1500, 1130));
    // "categories": "parent_id integer" is 120 + 90 + 9*78 + 140 + 7*72 = 1556.
    assert_eq!(erd.node_size(3), (1556 + 240, 1130));
    erd.toggle_node(3);
    assert_eq!(erd.node_size(3), (1796, 300));
}

#[test]
fn node_size_wide_header() {
    let schema = Schema {
        tables: vec![table("s", "a_rather_long_table_name", vec![])],
        foreign_keys: vec![],
    };
    let erd = Erd::build(&schema);
    // 24 characters * 84 + 340 + 240.
    assert_eq!(erd.node_size(0), (24 * 84 + 340 + 240, 380));
}

#[test]
fn column_role_priority() {
    assert_eq!(column_role(true, true, true), ColumnRole::PrimaryKey);
    assert_eq!(column_role(false, true, true), ColumnRole::SelfForeignKey);
    assert_eq!(column_role(false, true, false), ColumnRole::ForeignKey);
    assert_eq!(column_role(false, false, false), ColumnRole::Plain);
}
