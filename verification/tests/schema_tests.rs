use pgerd::db::{
    mark_column, sample, schema_from_rows, Column, ColumnMark, ColumnRow, ForeignKey,
    ForeignKeyRow, PrimaryKeyRow, Table,
};

fn column(name: &str, ty: &str) -> Column {
    Column {
        name: name.to_string(),
        data_type: ty.to_string(),
        is_primary_key: false,
        is_foreign_key: false,
        is_self_foreign_key: false,
    }
}

fn column_row(schema: &str, table: &str, column: &str, ty: &str) -> ColumnRow {
    ColumnRow {
        schema: schema.to_string(),
        table: table.to_string(),
        column: column.to_string(),
        data_type: ty.to_string(),
    }
}

fn pk_row(schema: &str, table: &str, column: &str) -> PrimaryKeyRow {
    PrimaryKeyRow { schema: schema.to_string(), table: table.to_string(), column: column.to_string() }
}

fn fk_row(from: (&str, &str), to: (&str, &str), columns: Option<Vec<&str>>) -> ForeignKeyRow {
    ForeignKeyRow {
        from_schema: from.0.to_string(),
        from_table: from.1.to_string(),
        to_schema: to.0.to_string(),
        to_table: to.1.to_string(),
        from_columns: columns.map(|v| v.into_iter().map(|s| s.to_string()).collect()),
    }
}

fn flags(c: &Column) -> (bool, bool, bool) {
    (c.is_primary_key, c.is_foreign_key, c.is_self_foreign_key)
}

#[test]
fn table_key_is_schema_and_name() {
    let t = Table { schema: "public".to_string(), name: "users".to_string(), columns: vec![] };
    assert_eq!(t.key(), ("public".to_string(), "users".to_string()));
}

#[test]
fn foreign_key_is_self_only_for_same_schema_and_table() {
    let mut fk = ForeignKey {
        from_schema: "public".to_string(),
        from_table: "categories".to_string(),
        to_schema: "public".to_string(),
        to_table: "categories".to_string(),
        from_columns: vec!["parent_id".to_string()],
    };
    assert!(fk.is_self());
    fk.to_schema = "other".to_string();
    assert!(!fk.is_self());
    fk.to_schema = "public".to_string();
    fk.to_table = "users".to_string();
    assert!(!fk.is_self());
}

#[test]
fn mark_column_sets_flags_on_every_column_with_the_name() {
    let mut t = Table {
        schema: "s".to_string(),
        name: "t".to_string(),
        columns: vec![column("a", "int"), column("b", "int"), column("a", "text")],
    };
    mark_column(&mut t, "a", ColumnMark::PrimaryKey);
    assert_eq!(flags(&t.columns[0]), (true, false, false));
    assert_eq!(flags(&t.columns[1]), (false, false, false));
    assert_eq!(flags(&t.columns[2]), (true, false, false));
    mark_column(&mut t, "b", ColumnMark::ForeignKey { self_reference: false });
    assert_eq!(flags(&t.columns[1]), (false, true, false));
    mark_column(&mut t, "b", ColumnMark::ForeignKey { self_reference: true });
    assert_eq!(flags(&t.columns[1]), (false, true, true));
    mark_column(&mut t, "b", ColumnMark::ForeignKey { self_reference: false });
    assert_eq!(flags(&t.columns[1]), (false, true, true));
    mark_column(&mut t, "missing", ColumnMark::PrimaryKey);
    assert_eq!(t.columns.len(), 3);
    assert_eq!(t.columns[1].name, "b");
}

#[test]
fn rows_are_grouped_into_tables_in_order_of_first_appearance() {
    let rows = vec![
        column_row("public", "users", "id", "integer"),
        column_row("public", "posts", "id", "integer"),
        column_row("public", "users", "name", "text"),
        column_row("audit", "users", "at", "timestamp"),
        column_row("public", "posts", "user_id", "integer"),
    ];
    let schema = schema_from_rows(&rows, &vec![], &vec![]);
    let names: Vec<(String, String, Vec<String>)> = schema
        .tables
        .iter()
        .map(|t| (t.schema.clone(), t.name.clone(), t.columns.iter().map(|c| c.name.clone()).collect()))
        .collect();
    assert_eq!(
        names,
        vec![
            ("public".to_string(), "users".to_string(), vec!["id".to_string(), "name".to_string()]),
            ("public".to_string(), "posts".to_string(), vec!["id".to_string(), "user_id".to_string()]),
            ("audit".to_string(), "users".to_string(), vec!["at".to_string()]),
        ]
    );
    assert_eq!(schema.tables[2].columns[0].data_type, "timestamp");
    assert!(schema.foreign_keys.is_empty());
    for t in &schema.tables {
        for c in &t.columns {
            assert_eq!(flags(c), (false, false, false));
        }
    }
}

#[test]
fn key_rows_mark_the_columns_they_name() {
    let rows = vec![
        column_row("public", "categories", "id", "integer"),
        column_row("public", "categories", "parent_id", "integer"),
        column_row("public", "posts", "id", "integer"),
        column_row("public", "posts", "author", "integer"),
        column_row("public", "users", "id", "integer"),
    ];
    let pks = vec![
        pk_row("public", "categories", "id"),
        pk_row("public", "posts", "id"),
        pk_row("public", "missing", "id"),
        pk_row("other", "users", "id"),
    ];
    let fks = vec![
        fk_row(("public", "posts"), ("public", "users"), Some(vec!["author"])),
        fk_row(("public", "categories"), ("public", "categories"), Some(vec!["parent_id"])),
        fk_row(("public", "ghost"), ("public", "users"), Some(vec!["x", "y"])),
        fk_row(("public", "posts"), ("public", "users"), None),
    ];
    let schema = schema_from_rows(&rows, &pks, &fks);
    assert_eq!(flags(&schema.tables[0].columns[0]), (true, false, false));
    assert_eq!(flags(&schema.tables[0].columns[1]), (false, true, true));
    assert_eq!(flags(&schema.tables[1].columns[0]), (true, false, false));
    assert_eq!(flags(&schema.tables[1].columns[1]), (false, true, false));
    // A primary-key row of another schema does not mark `public.users`.
    assert_eq!(flags(&schema.tables[2].columns[0]), (false, false, false));

    assert_eq!(schema.foreign_keys.len(), 4);
    assert_eq!(schema.foreign_keys[0].from_table, "posts");
    assert_eq!(schema.foreign_keys[0].to_table, "users");
    assert_eq!(schema.foreign_keys[0].from_columns, vec!["author".to_string()]);
    assert!(schema.foreign_keys[1].is_self());
    assert_eq!(schema.foreign_keys[2].from_table, "ghost");
    assert_eq!(schema.foreign_keys[2].from_columns, vec!["x".to_string(), "y".to_string()]);
    assert!(schema.foreign_keys[3].from_columns.is_empty());
}

#[test]
fn loaded_tables_have_distinct_keys_and_columns() {
    let rows = vec![
        column_row("a", "t", "x", "int"),
        column_row("b", "t", "y", "int"),
        column_row("a", "t", "z", "int"),
        column_row("a", "u", "w", "int"),
    ];
    let schema = schema_from_rows(&rows, &vec![], &vec![]);
    assert_eq!(schema.tables.len(), 3);
    for i in 0..schema.tables.len() {
        assert!(!schema.tables[i].columns.is_empty());
        for j in (i + 1)..schema.tables.len() {
            assert_ne!(schema.tables[i].key(), schema.tables[j].key());
        }
    }
}

#[test]
fn self_foreign_key_columns_are_foreign_key_columns() {
    let rows = vec![
        column_row("s", "node", "id", "int"),
        column_row("s", "node", "parent", "int"),
        column_row("s", "node", "owner", "int"),
    ];
    let fks = vec![
        fk_row(("s", "node"), ("s", "node"), Some(vec!["parent"])),
        fk_row(("s", "node"), ("s", "person"), Some(vec!["owner", "parent"])),
    ];
    let schema = schema_from_rows(&rows, &vec![], &fks);
    for c in &schema.tables[0].columns {
        assert!(!c.is_self_foreign_key || c.is_foreign_key);
    }
    assert_eq!(flags(&schema.tables[0].columns[1]), (false, true, true));
    assert_eq!(flags(&schema.tables[0].columns[2]), (false, true, false));
}

#[test]
fn no_rows_give_an_empty_schema() {
    let schema = schema_from_rows(&vec![], &vec![pk_row("s", "t", "c")], &vec![]);
    assert!(schema.tables.is_empty());
    assert!(schema.foreign_keys.is_empty());
}

#[test]
fn sample_schema_contents() {
    let s = sample();
    let names: Vec<&str> = s.tables.iter().map(|t| t.name.as_str()).collect();
    assert_eq!(names, vec!["users", "posts", "comments", "categories"]);
    for t in &s.tables {
        assert_eq!(t.schema, "public");
        assert_eq!(t.columns.len(), 3);
        assert_eq!(t.columns[0].name, "id");
        assert_eq!(flags(&t.columns[0]), (true, false, false));
    }
    assert_eq!(s.tables[0].columns[2].name, "email");
    assert_eq!(s.tables[1].columns[1].name, "user_id");
    assert_eq!(flags(&s.tables[1].columns[1]), (false, true, false));
    assert_eq!(s.tables[3].columns[1].name, "parent_id");
    assert_eq!(flags(&s.tables[3].columns[1]), (false, true, true));
    assert_eq!(s.tables[3].columns[2].data_type, "text");
    let fks: Vec<(&str, &str, &str)> = s
        .foreign_keys
        .iter()
        .map(|f| (f.from_table.as_str(), f.to_table.as_str(), f.from_columns[0].as_str()))
        .collect();
    assert_eq!(
        fks,
        vec![
            ("posts", "users", "user_id"),
            ("comments", "posts", "post_id"),
            ("comments", "users", "user_id"),
            ("categories", "categories", "parent_id"),
        ]
    );
    assert!(s.foreign_keys[3].is_self());
}
