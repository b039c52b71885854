use chat_history_manager::sql::{join_non_empty_with, join_with, make_join_sql, JoinTable, JoinType, SelectExpr};

#[test]
fn join_sql_lists_columns_and_joins() {
    let joins = vec![
        JoinTable {
            table_name: "user".to_owned(),
            table_alias: Some("u".to_owned()),
            selects: vec![SelectExpr::Trivial("name".to_owned()), SelectExpr::Custom("COUNT(*) AS c".to_owned())],
            join_expr_suffix: "id = m.from_id".to_owned(),
            join_type: JoinType::Inner,
        },
        JoinTable {
            table_name: "chat".to_owned(),
            table_alias: None,
            selects: vec![],
            join_expr_suffix: "id = m.chat_id".to_owned(),
            join_type: JoinType::Left,
        },
    ];
    let sql = make_join_sql("SELECT m.id", "FROM message m", "WHERE m.id > 0", &joins);
    assert_eq!(
        sql,
        "SELECT m.id, u.name, COUNT(*) AS c\nFROM message m\nINNER JOIN user AS u ON u.id = m.from_id\nLEFT JOIN chat AS chat ON chat.id = m.chat_id\nWHERE m.id > 0"
    );
}

#[test]
fn join_sql_without_joins() {
    assert_eq!(make_join_sql("SELECT *", "FROM t", "", &vec![]), "SELECT *\nFROM t\n\n");
}

#[test]
fn column_groups_are_separated_by_lines() {
    let t = |name: &str, col: &str| JoinTable {
        table_name: name.to_owned(),
        table_alias: None,
        selects: vec![SelectExpr::Trivial(col.to_owned())],
        join_expr_suffix: "x = y".to_owned(),
        join_type: JoinType::default(),
    };
    let sql = make_join_sql("", "FROM a", "", &vec![t("b", "c1"), t("d", "c2")]);
    assert_eq!(sql, "b.c1,\nd.c2\nFROM a\nLEFT JOIN b AS b ON b.x = y\nLEFT JOIN d AS d ON d.x = y\n");
}

#[test]
fn default_join_table_is_left_joined_and_aliased_by_name() {
    let t = JoinTable { table_name: "tbl".to_owned(), ..JoinTable::default() };
    assert_eq!(t.join_type, JoinType::Left);
    assert_eq!(t.alias(), "tbl");
}

#[test]
fn parts_are_joined() {
    let parts = vec!["a".to_owned(), "".to_owned(), "b".to_owned()];
    assert_eq!(join_with(&parts, "-"), "a--b");
    assert_eq!(join_non_empty_with(&parts, "-"), "a-b");
}
