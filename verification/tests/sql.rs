use rusty_pine::analyze::{
    Column, ForeignKey, Key, KeyReference, SchemaObjectName, Table, TableDescription,
};
use rusty_pine::analyze::{database_from_descriptions, select_databases};
use rusty_pine::engine::sql::querying::{
    show_create_table_statement, show_tables_statement, table_description_from_row, to_id,
};
use rusty_pine::analyze::{Database, Server, ServerParams, TableName};
use rusty_pine::engine::sql::{
    DbStructureParseError, DbStructureParsingContext, InputWindow, TextStyle,
};
use rusty_pine::error::ErrorKind;

#[test]
fn test_parse_column() {
    let input = "`id` int(11) NOT NULL AUTO_INCREMENT,";
    let column = Column::from_sql_string(input).unwrap();

    assert_eq!(column.name.0, "id");
}

#[test]
fn parse_foreign_key() {
    let input = "CONSTRAINT `FK_96C2225810EE4CEE` FOREIGN KEY (`parentId`, `fk2`) REFERENCES `teams` (`id`, `id2`) ON DELETE CASCADE,";
    let foreign_key = ForeignKey::from_sql_string("table", input).unwrap();

    assert_eq!(foreign_key.from.key.columns[0].0, "parentId");
    assert_eq!(foreign_key.from.key.columns[1].0, "fk2");
    assert_eq!(foreign_key.to.table.0, "teams");
    assert_eq!(foreign_key.to.key.columns[0].0, "id");
    assert_eq!(foreign_key.to.key.columns[1].0, "id2");
}

#[test]
fn test_parse_table() {
    let input = "
CREATE TABLE `teams` (
  `id` int(11) NOT NULL AUTO_INCREMENT,
  `name` varchar(50) COLLATE utf8_unicode_ci NOT NULL,
  `description` varchar(255) COLLATE utf8_unicode_ci DEFAULT NULL,
  `parentId` int(11) DEFAULT NULL,
  PRIMARY KEY (`id`, `id2`),
  KEY `IDX_96C22258F17FD7A5` (`customerId`),
  KEY `IDX_96C2225810EE4CEE` (`parentId`),
  CONSTRAINT `FK_96C2225810EE4CEE` FOREIGN KEY (`parentId`) REFERENCES `teams` (`id`) ON DELETE CASCADE,
  CONSTRAINT `FK_96C22258F17FD7A5` FOREIGN KEY (`customerId`) REFERENCES `customers` (`id`) ON DELETE CASCADE
) ENGINE=InnoDB DEFAULT CHARSET=utf8 COLLATE=utf8_unicode_ci
";
    let input = TableDescription::new_for_tests(input);
    let table = Table::from_sql_string(&input).unwrap();

    assert_eq!(table.name.0, "teams");
    assert_eq!(table.primary_key.columns.len(), 2);
    assert_eq!(table.columns.len(), 4);
    assert_eq!(table.foreign_keys.len(), 2);
}

#[test]
fn parsed_table_keeps_names_in_order() {
    let input = TableDescription::new_for_tests(
        "CREATE TABLE `a` (\n  `x` int,\n  `y` int,\n  PRIMARY KEY (`x`),\n  CONSTRAINT `f` FOREIGN KEY (`y`) REFERENCES `b` (`z`)\n)",
    );
    let table = Table::from_sql_string(&input).unwrap();

    assert_eq!("x", table.columns[0].name.0);
    assert_eq!("y", table.columns[1].name.0);
    assert_eq!("x", table.primary_key.columns[0].0);
    assert_eq!("a", table.foreign_keys[0].from.table.0);
    assert_eq!("y", table.foreign_keys[0].from.key.columns[0].0);
    assert_eq!("b", table.foreign_keys[0].to.table.0);
    assert_eq!("z", table.foreign_keys[0].to.key.columns[0].0);
}

#[test]
fn invalid_column_line_is_refused() {
    let error = Column::from_sql_string("PRIMARY KEY (`id`)").unwrap_err();

    assert_eq!("Invalid column spec: \"PRIMARY KEY (`id`)\"", error);
}

#[test]
fn invalid_foreign_key_line_is_refused() {
    let error = ForeignKey::from_sql_string("t", "KEY `k` (`a`)").unwrap_err();

    assert_eq!("Invalid foreign key spec: \"KEY `k` (`a`)\"", error);
}

#[test]
fn table_errors() {
    let not_a_table = TableDescription::new_for_tests("SELECT 1");
    assert_eq!(
        "Column name line not as expected:\nSELECT 1",
        Table::from_sql_string(&not_a_table).unwrap_err()
    );

    let no_primary_key = TableDescription::new_for_tests("CREATE TABLE `a` (\n  `x` int");
    assert_eq!(
        "Primary Key line not found",
        Table::from_sql_string(&no_primary_key).unwrap_err()
    );

    let odd_primary_key =
        TableDescription::new_for_tests("CREATE TABLE `a` (\n  `x` int,\n  UNIQUE KEY (`x`)");
    assert_eq!(
        "Unsupported primary key spec:\n  UNIQUE KEY (`x`)",
        Table::from_sql_string(&odd_primary_key).unwrap_err()
    );
}

#[test]
fn keys_from_names() {
    let key = Key::try_from_sql_string("`a`, `b`").unwrap();
    assert_eq!(2, key.columns.len());
    assert_eq!("b", key.columns[1].0);

    assert_eq!(
        "Can't accept keys with 0 columns: ,",
        Key::try_from_sql_string(",").unwrap_err()
    );
    assert!(Key::from_sql_str("`only`").is_some());
    assert!(Key::from_sql_str("").is_none());

    let reference = KeyReference::from_sql_str("t", "`c1`,`c2`").unwrap();
    assert_eq!("t", reference.table.0);
    assert_eq!(2, reference.key.columns.len());
}

#[test]
fn names_are_quoted_safely() {
    let name = to_id("we`ird".to_string());

    assert_eq!("we``ird", name.to_sql());
    assert_eq!("SHOW TABLES IN we``ird", show_tables_statement(&name));
    assert_eq!(
        "SHOW CREATE TABLE `we``ird`.`t`",
        show_create_table_statement(&name, &to_id("t".to_string()))
    );
}

#[test]
fn described_table_or_missing_table() {
    let db = to_id("db".to_string());
    let table = to_id("t".to_string());

    let found = table_description_from_row(Some(("t".to_string(), "CREATE".to_string())), &db, &table);
    assert_eq!("CREATE", found.unwrap().as_str());

    let missing = table_description_from_row(None, &db, &table).unwrap_err();
    match missing.kind() {
        ErrorKind::InternalError(e) => assert_eq!("Table disappeared `db`.`t`", e.0),
        other => panic!("unexpected error {:?}", other),
    }
}

#[test]
fn databases_are_selected_by_position() {
    let databases = vec![to_id("a".to_string()), to_id("b".to_string()), to_id("c".to_string())];
    let selected = select_databases(&databases, &vec![2, 0]);

    let names: Vec<&str> = selected.iter().map(SchemaObjectName::as_str).collect();
    assert_eq!(vec!["a", "c"], names);
}

#[test]
fn database_from_table_descriptions() {
    let descriptions = vec![
        TableDescription::new_for_tests("CREATE TABLE `a` (\n  `x` int,\n  PRIMARY KEY (`x`)\n)"),
        TableDescription::new_for_tests("CREATE TABLE `b` (\n  `y` int,\n  PRIMARY KEY (`y`)\n)"),
    ];
    let database = database_from_descriptions(&to_id("db".to_string()), &descriptions).unwrap();

    assert_eq!("db", database.name.0);
    assert_eq!(2, database.tables.len());
    assert_eq!("b", database.tables[1].name.0);

    let broken = vec![TableDescription::new_for_tests("nothing")];
    assert_eq!(
        "Column name line not as expected:\nnothing",
        database_from_descriptions(&to_id("db".to_string()), &broken).unwrap_err()
    );
}

#[test]
fn input_windows_move_and_grow() {
    let window = InputWindow {
        context: DbStructureParsingContext::File("schema.sql".to_string()),
        start_line: 2,
        content: "a\n".to_string(),
    };
    let grown = window.with_line("b");
    assert_eq!("a\nb", grown.content);
    assert_eq!(2, grown.start_line);

    let moved = grown.move_window(10);
    assert_eq!(12, moved.start_line);

    let error = DbStructureParseError {
        input: moved,
        line_number: 1,
        message: "bad line".to_string(),
    };
    let error = error.move_window(100);
    assert_eq!(112, error.input.start_line);
    assert_eq!(
        "Error parsing DDL statement:\nbad line\nIn file: schema.sql\n113 | a\n114 | b\n    | ^\n",
        error.to_text()
    );
}

#[test]
fn error_window_numbers_are_aligned() {
    let error = DbStructureParseError {
        input: InputWindow {
            context: DbStructureParsingContext::Unspecified,
            start_line: 0,
            content: "one\r\ntwo\n".to_string(),
        },
        line_number: 0,
        message: "m".to_string(),
    };

    assert_eq!(
        "Error parsing DDL statement:\nm\n\n  1 | one\n    | ^^^\n  2 | two\n",
        error.to_text()
    );
}

fn groups(items: &[Option<&str>]) -> Option<Vec<Option<String>>> {
    Some(items.iter().map(|g| g.map(|s| s.to_string())).collect())
}

#[test]
fn lines_read_from_given_matches() {
    let column = Column::from_captures("`id` int", &groups(&[Some("`id` "), Some("id")])).unwrap();
    assert_eq!("id", column.name.0);
    assert_eq!(
        "Invalid column spec: \"x\"",
        Column::from_captures("x", &None).unwrap_err()
    );

    assert_eq!(
        "t",
        Table::table_name_from_captures("l", &groups(&[Some("CREATE TABLE `t`"), Some("t")]))
            .unwrap()
    );
    assert_eq!(
        "Column name line not as expected:\nl",
        Table::table_name_from_captures("l", &groups(&[Some("x")])).unwrap_err()
    );

    let key = Table::primary_key_from_captures("l", &groups(&[Some("PRIMARY KEY"), Some("`a`,`b`")]))
        .unwrap();
    assert_eq!(2, key.columns.len());
    assert_eq!(
        "Unsupported primary key spec:\nl",
        Table::primary_key_from_captures("l", &None).unwrap_err()
    );

    let foreign_key = ForeignKey::from_captures(
        "from",
        "line",
        &groups(&[Some("all"), Some("`a`"), None, None, Some("to"), Some("`b`")]),
    )
    .unwrap();
    assert_eq!("from", foreign_key.from.table.0);
    assert_eq!("a", foreign_key.from.key.columns[0].0);
    assert_eq!("to", foreign_key.to.table.0);
    assert_eq!("b", foreign_key.to.key.columns[0].0);
    assert_eq!(
        "Invalid foreign key spec: \"line\"",
        ForeignKey::from_captures("from", "line", &groups(&[Some("all"), Some("`a`")])).unwrap_err()
    );
}

#[test]
fn keys_from_given_names() {
    let key = Key::try_from_names("v", vec!["a".to_string()]).unwrap();
    assert_eq!("a", key.columns[0].0);
    assert_eq!(
        "Can't accept keys with 0 columns: v",
        Key::try_from_names("v", Vec::new()).unwrap_err()
    );
    assert!(KeyReference::from_names("t", Vec::new()).is_none());
    assert_eq!(1, Key::from_names(vec!["z".to_string()]).columns.len());
}

#[test]
fn parse_error_parts_carry_styles() {
    let error = DbStructureParseError {
        input: InputWindow {
            context: DbStructureParsingContext::Unspecified,
            start_line: 0,
            content: "ab".to_string(),
        },
        line_number: 0,
        message: "m".to_string(),
    };
    let parts = error.to_parts();

    let styles: Vec<TextStyle> = parts.iter().map(|p| p.style).collect();
    assert_eq!(
        vec![
            TextStyle::Plain,
            TextStyle::Bold,
            TextStyle::Plain,
            TextStyle::Plain,
            TextStyle::Plain,
            TextStyle::Red,
            TextStyle::Plain
        ],
        styles
    );
    assert_eq!("^^", parts[5].text);
    let whole: String = parts.iter().map(|p| p.text.as_str()).collect();
    assert_eq!(error.to_text(), whole);
}

#[test]
fn servers_and_databases_hold_each_name_once() {
    let table = |name: &str| {
        Table::from_sql_string(&TableDescription::new_for_tests(&format!(
            "CREATE TABLE `{}` (\n  `x` int,\n  PRIMARY KEY (`x`)\n)",
            name
        )))
        .unwrap()
    };
    let mut database = Database::new(TableName("db".to_string()));
    database.insert_table(table("a"));
    database.insert_table(table("b"));
    database.insert_table(table("a"));
    assert_eq!(2, database.tables.len());
    assert!(database.is_well_formed());

    let mut server = Server::new(ServerParams {
        hostname: "h".to_string(),
        port: 1,
        user: "u".to_string(),
        default_database: TableName("db".to_string()),
    });
    server.insert_database(database);
    server.insert_database(Database::new(TableName("db".to_string())));
    assert_eq!(1, server.databases.len());
    assert_eq!(0, server.databases[0].tables.len());
    assert!(server.is_well_formed());

    server.databases.push(Database::new(TableName("db".to_string())));
    assert!(!server.is_well_formed());
}
