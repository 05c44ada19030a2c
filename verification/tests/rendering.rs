use rusty_pine::analyze::{Database, Server, ServerParams, Table, TableDescription, TableName};
use rusty_pine::engine::query_builder::stage5::Stage5Builder;
use rusty_pine::engine::query_builder::{build_query, QueryBuildError};
use rusty_pine::engine::rendering::query_rendering::render_query;
use rusty_pine::engine::query_builder::sql_introspection::find_join_exec;
use rusty_pine::engine::syntax::{parse_to_stage4, OptionalInput, SqlIdentifierInput, TableInput};
use rusty_pine::engine::{render, Limit, Position, Sourced};
use rusty_pine::error::ErrorKind;

fn params(default_database: &str) -> ServerParams {
    ServerParams {
        hostname: "".to_string(),
        port: 0,
        user: "".to_string(),
        default_database: TableName(default_database.to_string()),
    }
}

fn table(create: &str) -> Table {
    Table::from_sql_string(&TableDescription::new_for_tests(create)).unwrap()
}

/// A server with a `test` database of users, their preferences, posts and comments.
fn mock_server() -> Server {
    let tables = vec![
        table(
            "CREATE TABLE `users` (
  `id` int(11) NOT NULL AUTO_INCREMENT,
  `name` varchar(50) NOT NULL,
  `email` varchar(50) NOT NULL,
  PRIMARY KEY (`id`)
) ENGINE=InnoDB",
        ),
        table(
            "CREATE TABLE `userPreferences` (
  `id` int(11) NOT NULL AUTO_INCREMENT,
  `userId` int(11) NOT NULL,
  `key` varchar(50) NOT NULL,
  PRIMARY KEY (`id`),
  CONSTRAINT `FK_1` FOREIGN KEY (`userId`) REFERENCES `users` (`id`)
) ENGINE=InnoDB",
        ),
        table(
            "CREATE TABLE `posts` (
  `id` int(11) NOT NULL AUTO_INCREMENT,
  `authorId` int(11) NOT NULL,
  `title` varchar(50) NOT NULL,
  PRIMARY KEY (`id`),
  CONSTRAINT `FK_2` FOREIGN KEY (`authorId`) REFERENCES `users` (`id`)
) ENGINE=InnoDB",
        ),
    ];

    Server {
        params: params("test"),
        databases: vec![Database {
            name: TableName("test".to_string()),
            tables,
        }],
    }
}

#[test]
fn stage5_test_try_from_simple() {
    let server = Server {
        params: params(""),
        databases: Default::default(),
    };
    let builder = Stage5Builder::new(parse_to_stage4("table | s: id").unwrap(), &server);

    let result = builder.try_build();

    assert!(result.is_ok());

    let query = result.unwrap();

    assert_eq!(query.from.it.name.it.0, "table");
}

#[test]
fn test_try_from_simple() {
    let server = Server {
        params: params(""),
        databases: Vec::new(),
    };
    let result = Stage5Builder::new(parse_to_stage4("table | s: id").unwrap(), &server).try_build();

    assert!(result.is_ok());

    let query = result.unwrap();

    assert_eq!(query.from.it.name.it.0, "table");
}

#[test]
fn run_integration_tests() {
    let server = mock_server();
    let cases = [
        (
            "humans | s: id name",
            "SELECT id, name\nFROM humans\nLIMIT 10;",
        ),
        (
            "users | select: id name | where: id = 3",
            "SELECT id, name\nFROM users\nWHERE id = 3\nLIMIT 10;",
        ),
        ("users", "SELECT *\nFROM users\nLIMIT 10;"),
        (
            "users | userPreferences",
            "SELECT userPreferences.*\nFROM userPreferences\nLEFT JOIN users ON users.id = userPreferences.userId\nLIMIT 10;",
        ),
        (
            "users | s: id | posts",
            "SELECT users.id\nFROM posts\nLEFT JOIN users ON users.id = posts.authorId\nLIMIT 10;",
        ),
        (
            "users | posts title = 'x' | s: title",
            "SELECT posts.title\nFROM posts\nLEFT JOIN users ON users.id = posts.authorId\nWHERE posts.title = 'x'\nLIMIT 10;",
        ),
        (
            "users | w: id >= 1_000 name is null",
            "SELECT *\nFROM users\nWHERE id >= 1000 AND name IS NULL\nLIMIT 10;",
        ),
        (
            "users | s: count(id) | g: name",
            "SELECT count(id), name\nFROM users\nLIMIT 10;",
        ),
        (
            "users | o: name id asc | l: 5",
            "SELECT *\nFROM users\nLIMIT 5;",
        ),
        (
            "users | posts | g: title",
            "SELECT posts.title, posts.*\nFROM posts\nLEFT JOIN users ON users.id = posts.authorId\nLIMIT 10;",
        ),
        (
            "users | g: name | posts",
            "SELECT users.name, users.*\nFROM posts\nLEFT JOIN users ON users.id = posts.authorId\nLIMIT 10;",
        ),
        (
            "users | l: 20 5",
            "SELECT *\nFROM users\nLIMIT 20, 5;",
        ),
        (
            "users | s: concat(name, \"-\", email) id != 2",
            "SELECT concat(name, \"-\", email), id != 2\nFROM users\nLIMIT 10;",
        ),
        (
            "users | s: test.users.id",
            "SELECT id\nFROM users\nLIMIT 10;",
        ),
        (
            "from: test.users | j: posts authorId = id | s: title",
            "SELECT posts.title\nFROM posts\nLEFT JOIN test.users ON test.users.authorId = posts.id\nLIMIT 10;",
        ),
    ];

    for (input, expected) in cases {
        let found = render(input, &server);
        assert!(found.is_ok(), "{}: {:?}", input, found);
        assert_eq!(expected, found.unwrap(), "{}", input);
    }
}

#[test]
fn join_without_foreign_key_is_refused() {
    let server = mock_server();
    let error = render("posts | userPreferences", &server).unwrap_err();

    match error.kind() {
        ErrorKind::QueryBuildError(QueryBuildError::JoinNotFound { from, to }) => {
            assert_eq!("posts", from.0);
            assert_eq!("userPreferences", to.0);
        }
        other => panic!("unexpected error {:?}", other),
    }
}

#[test]
fn join_needs_the_default_database() {
    let server = Server {
        params: params("missing"),
        databases: Vec::new(),
    };
    let error = render("users | posts", &server).unwrap_err();

    assert!(matches!(
        error.kind(),
        ErrorKind::QueryBuildError(QueryBuildError::DefaultDatabaseNotFound(_, _))
    ));
}

#[test]
fn join_in_an_unknown_database_is_refused() {
    let server = mock_server();
    let error = render("other.users | posts", &server).unwrap_err();

    match error.kind() {
        ErrorKind::QueryBuildError(QueryBuildError::DatabaseNotFound(_, name)) => {
            assert_eq!("other", name.0)
        }
        other => panic!("unexpected error {:?}", other),
    }
}

#[test]
fn render_reports_syntax_errors() {
    let server = mock_server();
    let error = render("users | s: (", &server).unwrap_err();

    assert!(matches!(error.kind(), ErrorKind::SyntaxError(e) if e.position == 9));
}

#[test]
fn build_then_render_a_query() {
    let server = mock_server();
    let query = build_query(parse_to_stage4("users | s: name").unwrap(), &server).unwrap();

    assert_eq!("SELECT name\nFROM users\nLIMIT 10;", render_query(query));
}

#[test]
fn limits_in_numbers() {
    assert_eq!("10", Limit::Implicit().to_sql());
    assert_eq!("25", Limit::RowCount(25).to_sql());
    assert_eq!("100, 7", Limit::Range(100..7).to_sql());
}

#[test]
fn foreign_keys_with_unequal_sides_are_refused() {
    let mut server = mock_server();
    server.databases[0].tables.push(table(
        "CREATE TABLE `odd` (
  `a` int(11) NOT NULL,
  `b` int(11) NOT NULL,
  PRIMARY KEY (`a`),
  CONSTRAINT `FK_3` FOREIGN KEY (`a`, `b`) REFERENCES `users` (`id`)
) ENGINE=InnoDB",
    ));

    let error = render("users | odd", &server).unwrap_err();

    match error.kind() {
        ErrorKind::QueryBuildError(QueryBuildError::InvalidForeignKey { from, to }) => {
            assert_eq!("users", from.table.0);
            assert_eq!(1, from.key.columns.len());
            assert_eq!("odd", to.table.0);
            assert_eq!(2, to.key.columns.len());
        }
        other => panic!("unexpected error {:?}", other),
    }
}

/// Users with a manager, and managers with a favourite user: a foreign key each way.
fn two_way_server() -> Server {
    let tables = vec![
        table(
            "CREATE TABLE `users` (
  `id` int(11) NOT NULL AUTO_INCREMENT,
  `managerId` int(11) NOT NULL,
  PRIMARY KEY (`id`),
  CONSTRAINT `FK_1` FOREIGN KEY (`managerId`) REFERENCES `managers` (`id`)
) ENGINE=InnoDB",
        ),
        table(
            "CREATE TABLE `managers` (
  `id` int(11) NOT NULL AUTO_INCREMENT,
  `favouriteUserId` int(11) NOT NULL,
  PRIMARY KEY (`id`),
  CONSTRAINT `FK_2` FOREIGN KEY (`favouriteUserId`) REFERENCES `users` (`id`)
) ENGINE=InnoDB",
        ),
        table(
            "CREATE TABLE `posts` (
  `id` int(11) NOT NULL AUTO_INCREMENT,
  `authorId` int(11) NOT NULL,
  PRIMARY KEY (`id`),
  CONSTRAINT `FK_3` FOREIGN KEY (`authorId`) REFERENCES `users` (`id`)
) ENGINE=InnoDB",
        ),
    ];

    Server {
        params: params("test"),
        databases: vec![Database {
            name: TableName("test".to_string()),
            tables,
        }],
    }
}

fn table_input(name: &str) -> TableInput<'_> {
    TableInput {
        database: OptionalInput::Implicit,
        table: Sourced::from_input(Position { start: 0, end: name.len() }, SqlIdentifierInput { name }),
    }
}

#[test]
fn a_join_prefers_a_key_of_the_table_joined_from() {
    let server = two_way_server();

    let found = find_join_exec(&server, &table_input("users"), &table_input("managers")).unwrap();
    assert_eq!("users", found.from.table.0);
    assert_eq!(vec!["managerId".to_string()], found.from.key.columns.iter().map(|c| c.0.clone()).collect::<Vec<_>>());
    assert_eq!("managers", found.to.table.0);

    let found = find_join_exec(&server, &table_input("managers"), &table_input("users")).unwrap();
    assert_eq!("managers", found.from.table.0);
    assert_eq!(vec!["favouriteUserId".to_string()], found.from.key.columns.iter().map(|c| c.0.clone()).collect::<Vec<_>>());
    assert_eq!("users", found.to.table.0);
}

#[test]
fn a_join_reads_a_key_of_the_table_joined_to_backwards() {
    let server = two_way_server();

    let found = find_join_exec(&server, &table_input("users"), &table_input("posts")).unwrap();
    assert_eq!("users", found.from.table.0);
    assert_eq!(vec!["id".to_string()], found.from.key.columns.iter().map(|c| c.0.clone()).collect::<Vec<_>>());
    assert_eq!("posts", found.to.table.0);
    assert_eq!(vec!["authorId".to_string()], found.to.key.columns.iter().map(|c| c.0.clone()).collect::<Vec<_>>());

    assert!(find_join_exec(&server, &table_input("managers"), &table_input("posts")).is_err());
}
