use engine::schema::{assemble, ColumnRow, ForeignKeyRow, RelationKind};

fn col(table: &str, column: &str, data_type: &str, is_pk: bool) -> ColumnRow {
    ColumnRow {
        table: table.to_string(),
        column: column.to_string(),
        data_type: data_type.to_string(),
        is_pk,
    }
}

fn fkey(table: &str, column: &str, foreign_table: &str, foreign_column: &str) -> ForeignKeyRow {
    ForeignKeyRow {
        table: table.to_string(),
        column: column.to_string(),
        foreign_table: foreign_table.to_string(),
        foreign_column: foreign_column.to_string(),
    }
}

#[test]
fn users_posts_scenario() {
    let columns = vec![
        col("users", "id", "int4", true),
        col("users", "name", "text", false),
        col("posts", "id", "int4", true),
        col("posts", "user_id", "int4", false),
    ];
    let fks = vec![fkey("posts", "user_id", "users", "id")];
    let g = assemble(&columns, &fks);

    assert_eq!(g.entries.len(), 2);
    let users = &g.entries[0];
    let posts = &g.entries[1];
    assert_eq!(users.name, "users");
    assert_eq!(posts.name, "posts");

    assert_eq!(users.data.relations.len(), 1);
    let has_many = &users.data.relations[0];
    assert_eq!(has_many.kind, RelationKind::ReferencedBy);
    assert_eq!(has_many.target_table, "posts");
    assert_eq!(has_many.source_col, "id");
    assert_eq!(has_many.target_col, "user_id");

    assert_eq!(posts.data.relations.len(), 1);
    let belongs_to = &posts.data.relations[0];
    assert_eq!(belongs_to.kind, RelationKind::References);
    assert_eq!(belongs_to.target_table, "users");
    assert_eq!(belongs_to.source_col, "user_id");
    assert_eq!(belongs_to.target_col, "id");

    let user_id = &posts.data.columns[1];
    assert_eq!(user_id.name, "user_id");
    assert!(user_id.is_fk);
    assert!(!posts.data.columns[0].is_fk);
    assert!(!users.data.columns[0].is_fk);
}

#[test]
fn groups_rows_of_one_table_into_one_entry_in_order() {
    let columns = vec![
        col("a", "x", "int4", true),
        col("b", "only", "text", false),
        col("a", "y", "text", false),
        col("a", "z", "bool", false),
    ];
    let g = assemble(&columns, &vec![]);
    assert_eq!(g.entries.len(), 2);
    let a = &g.entries[0];
    assert_eq!(a.name, "a");
    let names: Vec<&str> = a.data.columns.iter().map(|c| c.name.as_str()).collect();
    assert_eq!(names, vec!["x", "y", "z"]);
    assert!(a.data.columns[0].is_pk);
    assert_eq!(a.data.columns[1].data_type, "text");
    assert!(a.data.relations.is_empty());
    assert_eq!(g.entries[1].name, "b");
}

#[test]
fn foreign_key_to_unknown_table_adds_no_referenced_by_edge() {
    let columns = vec![col("orders", "id", "int4", true), col("orders", "ext_id", "int4", false)];
    let fks = vec![fkey("orders", "ext_id", "external", "id")];
    let g = assemble(&columns, &fks);

    assert_eq!(g.entries.len(), 1);
    let orders = &g.entries[0];
    // The source side still gets its References edge and tag.
    assert_eq!(orders.data.relations.len(), 1);
    assert_eq!(orders.data.relations[0].kind, RelationKind::References);
    assert!(orders.data.columns[1].is_fk);
    // No table anywhere carries a ReferencedBy edge.
    for e in &g.entries {
        for r in &e.data.relations {
            assert_ne!(r.kind, RelationKind::ReferencedBy);
        }
    }
}

#[test]
fn foreign_key_from_unknown_table_adds_only_referenced_by_edge() {
    let columns = vec![col("users", "id", "int4", true)];
    let fks = vec![fkey("ghost", "user_id", "users", "id")];
    let g = assemble(&columns, &fks);

    let users = &g.entries[0];
    assert_eq!(users.data.relations.len(), 1);
    assert_eq!(users.data.relations[0].kind, RelationKind::ReferencedBy);
    assert_eq!(users.data.relations[0].target_table, "ghost");
    assert!(!users.data.columns[0].is_fk);
}

#[test]
fn foreign_key_on_dropped_column_adds_edge_without_tag() {
    // The constraint names a column the snapshot no longer has: the edge
    // is still added, no column is tagged, and nothing fails.
    let columns = vec![col("t", "id", "int4", true)];
    let fks = vec![fkey("t", "gone", "t2", "id")];
    let g = assemble(&columns, &fks);
    let t = &g.entries[0];
    assert_eq!(t.data.relations.len(), 1);
    assert_eq!(t.data.relations[0].kind, RelationKind::References);
    assert!(t.data.columns.iter().all(|c| !c.is_fk));
}

#[test]
fn self_referential_key_puts_both_edges_on_one_table() {
    let columns = vec![col("emp", "id", "int4", true), col("emp", "boss_id", "int4", false)];
    let fks = vec![fkey("emp", "boss_id", "emp", "id")];
    let g = assemble(&columns, &fks);
    let emp = &g.entries[0];
    assert_eq!(emp.data.relations.len(), 2);
    assert_eq!(emp.data.relations[0].kind, RelationKind::References);
    assert_eq!(emp.data.relations[1].kind, RelationKind::ReferencedBy);
    assert!(emp.data.columns[1].is_fk);
}

#[test]
fn duplicate_foreign_keys_are_not_deduplicated() {
    let columns = vec![
        col("a", "id", "int4", true),
        col("a", "b_id", "int4", false),
        col("b", "id", "int4", true),
    ];
    let fks = vec![fkey("a", "b_id", "b", "id"), fkey("a", "b_id", "b", "id")];
    let g = assemble(&columns, &fks);
    assert_eq!(g.entries[0].data.relations.len(), 2);
    assert_eq!(g.entries[1].data.relations.len(), 2);
}

#[test]
fn empty_inputs_give_empty_graph() {
    let g = assemble(&vec![], &vec![]);
    assert!(g.entries.is_empty());
}

#[test]
fn relation_kind_labels() {
    assert_eq!(RelationKind::References.label(), "Belongs To");
    assert_eq!(RelationKind::ReferencedBy.label(), "Has Many");
}
