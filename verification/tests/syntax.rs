use rusty_pine::engine::syntax::stage2::{parse_stage2, Stage2Pine};
use rusty_pine::engine::syntax::stage3::{Stage3Pine, Stage3Rep};
use rusty_pine::engine::syntax::stage4::{Stage4ComputationInput, Stage4Rep};
use rusty_pine::engine::syntax::{parse_to_stage4, OptionalInput, SqlIdentifierInput, TableInput};
use rusty_pine::engine::{
    ConditionHolder, JoinConditions, LimitHolder, LiteralValueHolder, OrderDirection, Position,
    SelectableHolder, Source, Sourced,
};
use rusty_pine::error::ErrorKind;

fn at(start: usize, end: usize) -> Source {
    Source::Input(Position { start, end })
}

fn identifier<'a>(start: usize, end: usize, name: &'a str) -> Sourced<SqlIdentifierInput<'a>> {
    Sourced::from_input(Position { start, end }, SqlIdentifierInput { name })
}

/// The name of the database, when one was given.
fn database_name<'a>(database: OptionalInput<Sourced<SqlIdentifierInput<'a>>>) -> OptionalInput<&'a str> {
    match database {
        OptionalInput::Implicit => OptionalInput::Implicit,
        OptionalInput::Specified(db) => OptionalInput::Specified(db.it.name),
    }
}

#[test]
fn test_base() {
    let result = parse_stage2("table");
    assert!(result.is_ok());

    let root = result.unwrap();
    assert!(root.pines.first().is_some());
}

#[test]
fn test_error() {
    let error = parse_stage2("test 012-test").unwrap_err();

    assert_eq!(5, error.position);
}

#[test]
fn stage2_test_simple_parse() {
    let stage2 = parse_stage2("name").unwrap();

    assert_eq!("name", stage2.input);

    let base = &stage2.pines[0];
    assert!(matches!(
        base.it,
        Stage2Pine::Base {
            table: Sourced {
                it: TableInput {
                    database: OptionalInput::Implicit,
                    table: Sourced {
                        it: SqlIdentifierInput { name: "name" },
                        source: Source::Input(Position { start: 0, end: 4 })
                    },
                },
                source: Source::Input(Position { start: 0, end: 4 })
            },
            ..
        }
    ));
    assert_eq!(at(0, 4), base.source);
}

#[test]
fn stage3_test_simple_convert() {
    let stage3 = Stage3Rep::from(parse_stage2("table").unwrap());

    assert_eq!("table", stage3.input);

    let first = &stage3.pines[0];
    assert_eq!(at(0, 5), first.source);

    assert!(matches!(
        first.it,
        Stage3Pine::From {
            table: Sourced {
                it: TableInput {
                    database: OptionalInput::Implicit,
                    table: Sourced {
                        it: SqlIdentifierInput { name: "table" },
                        source: Source::Input(Position { start: 0, end: 5 }),
                    },
                },
                source: Source::Input(Position { start: 0, end: 5 }),
            },
            ..
        }
    ))
}

#[test]
fn stage4_test_simple_transform() {
    let stage4 = Stage4Rep::from(Stage3Rep::from(parse_stage2("table").unwrap()));

    assert_eq!("table", stage4.input);
    assert_eq!(at(0, 5), stage4.from.source);
    assert_eq!(at(0, 5), stage4.from.source);
    assert_eq!("table", stage4.from.it.table.it.name);
    assert!(matches!(stage4.from.it.database, OptionalInput::Implicit));
}

#[test]
fn stage4_test_transform_with_database() {
    let stage4 = Stage4Rep::from(Stage3Rep::from(parse_stage2("database.table").unwrap()));

    assert_eq!("database.table", stage4.input);
    assert_eq!(at(0, 14), stage4.from.source);
    assert_eq!(at(0, 14), stage4.from.source);
    assert_eq!("table", stage4.from.it.table.it.name);
    assert_eq!(at(9, 14), stage4.from.it.table.source);
    assert_eq!("database", stage4.from.it.database.unwrap().it.name);
    assert_eq!(at(0, 8), stage4.from.it.database.unwrap().source);
}

#[test]
fn stage4_test_examples_for_select() {
    struct Example<'a> {
        input: &'a str,
        expected_column: SqlIdentifierInput<'a>,
        expected_table: TableInput<'a>,
    }

    let examples = vec![
        Example {
            input: "table | s: id",
            expected_column: SqlIdentifierInput { name: "id" },
            expected_table: TableInput {
                database: OptionalInput::Implicit,
                table: identifier(0, 5, "table"),
            },
        },
        Example {
            input: "table | s: table.id",
            expected_column: SqlIdentifierInput { name: "id" },
            expected_table: TableInput {
                table: identifier(11, 16, "table"),
                database: OptionalInput::Implicit,
            },
        },
        Example {
            input: "table | s: db.table.id",
            expected_column: SqlIdentifierInput { name: "id" },
            expected_table: TableInput {
                table: identifier(14, 19, "table"),
                database: OptionalInput::Specified(identifier(11, 13, "db")),
            },
        },
    ];

    for example in examples {
        let Example {
            input,
            expected_column,
            expected_table,
        } = example;
        let output = parse_to_stage4(input).unwrap();

        assert_eq!(1, output.selected_columns.len());
        assert!(matches!(
            &output.selected_columns[0],
            Sourced{ it: SelectableHolder::Computation(Sourced { it:
                Stage4ComputationInput::Column(column), ..},), ..}
                if column.it.column.it == expected_column && column.it.table.it == expected_table
        ));
    }
}

#[test]
fn stage4_test_examples_for_from() {
    let examples = vec![
        ("table", "table", OptionalInput::Implicit),
        ("f: table", "table", OptionalInput::Implicit),
        ("from: table", "table", OptionalInput::Implicit),
        ("from: db.table", "table", OptionalInput::Specified("db")),
    ];

    for (input, expected_table, expected_db) in examples {
        let output = parse_to_stage4(input).unwrap();
        let from = output.from;

        assert_eq!(expected_table, from.it.table.it.name, "Parsing: {}", input);
        assert_eq!(expected_db, database_name(from.it.database), "Parsing: {}", input);
    }
}

#[test]
fn test_multiple_selects() {
    let output = parse_to_stage4("table | s: id | s: id2").unwrap();

    assert_eq!(2, output.selected_columns.len());
}

#[test]
fn test_selecting_multiple_columns() {
    let output = parse_to_stage4("table | s: id id2").unwrap();

    assert_eq!(2, output.selected_columns.len());
}

#[test]
fn syntax_error_points_at_the_first_character_that_does_not_fit() {
    let error = parse_to_stage4("users | s: id |").unwrap_err();

    match error.kind() {
        ErrorKind::SyntaxError(e) => assert_eq!(15, e.position),
        other => panic!("unexpected error {:?}", other),
    }
}

#[test]
fn syntax_error_on_an_unclosed_string() {
    let error = parse_to_stage4("users | w: name = 'x").unwrap_err();

    assert!(matches!(error.kind(), ErrorKind::SyntaxError(_)));
}

#[test]
fn a_table_alone_selects_nothing_in_particular() {
    let output = parse_to_stage4("users").unwrap();

    assert_eq!(0, output.selected_columns.len());
    assert!(matches!(output.limit.it, LimitHolder::Implicit()));
    assert_eq!(Source::Implicit, output.limit.source);
}

#[test]
fn limits_orders_groups_and_filters_are_gathered() {
    let output =
        parse_to_stage4("users | l: 5 10 | o: name asc id | g: country | w: id > 3 name is not null")
            .unwrap();

    assert!(matches!(
        output.limit.it,
        LimitHolder::Range { start: Sourced { it: LiteralValueHolder::Number("5"), .. }, count: Sourced { it: LiteralValueHolder::Number("10"), .. } }
    ));
    assert_eq!(2, output.orders.len());
    assert_eq!(OrderDirection::Ascending, output.orders[0].it.direction.it);
    assert_eq!(OrderDirection::Descending, output.orders[1].it.direction.it);
    assert_eq!(1, output.group_by.len());
    assert_eq!(2, output.filters.len());
    assert!(matches!(output.filters[0].it, ConditionHolder::Binary(_)));
    assert!(matches!(output.filters[1].it, ConditionHolder::Unary(_)));
}

#[test]
fn a_later_limit_replaces_an_earlier_one() {
    let output = parse_to_stage4("users | l: 5 | l: 7").unwrap();

    assert!(matches!(
        output.limit.it,
        LimitHolder::RowCount(Sourced { it: LiteralValueHolder::Number("7"), .. })
    ));
}

#[test]
fn compound_join_joins_and_filters() {
    let output = parse_to_stage4("users | posts id = 3").unwrap();

    assert_eq!(1, output.joins.len());
    assert_eq!("users", output.joins[0].it.source_table.it.table.it.name);
    assert_eq!("posts", output.joins[0].it.target_table.it.table.it.name);
    assert!(matches!(output.joins[0].it.conditions, JoinConditions::Auto));
    assert_eq!(1, output.filters.len());
}

#[test]
fn explicit_join_keeps_its_conditions() {
    let output = parse_to_stage4("users | j: posts id = userId").unwrap();

    assert_eq!(1, output.joins.len());
    assert!(matches!(&output.joins[0].it.conditions, JoinConditions::Explicit(cs) if cs.len() == 1));
    assert_eq!(0, output.filters.len());
}

#[test]
fn optional_input_or_and_unwrap() {
    let given: OptionalInput<u32> = OptionalInput::Specified(4);
    let missing: OptionalInput<u32> = OptionalInput::Implicit;

    assert_eq!(4, given.or(9u32));
    assert_eq!(9, missing.or(9u32));
    assert_eq!(4, *given.unwrap());
}

#[test]
fn a_join_leaves_the_selection_as_it_is() {
    let output = parse_to_stage4("users | posts | g: title").unwrap();

    assert_eq!(2, output.selected_columns.len());
    assert!(matches!(
        &output.selected_columns[0],
        Sourced { it: SelectableHolder::Computation(Sourced { it: Stage4ComputationInput::Column(column), .. }), .. }
            if column.it.column.it.name == "title"
    ));
    assert!(matches!(
        &output.selected_columns[1],
        Sourced { it: SelectableHolder::Computation(Sourced { it: Stage4ComputationInput::Column(column), .. }), source: Source::Implicit }
            if column.it.column.it.name == "*" && column.it.table.it.table.it.name == "posts"
    ));

    let output = parse_to_stage4("users | g: name | posts").unwrap();
    assert_eq!(2, output.selected_columns.len());
    assert_eq!(1, output.joins.len());
}

#[test]
fn positions_are_counted_in_bytes() {
    let stage2 = parse_stage2("users | w: name = 'é' | s: id").unwrap();

    assert_eq!(3, stage2.pines.len());
    assert_eq!(at(0, 5), stage2.pines[0].source);
    assert_eq!(at(25, 30), stage2.pines[2].source);
}

#[test]
fn syntax_error_position_is_counted_in_bytes() {
    let error = parse_to_stage4("users | w: name = 'é' |").unwrap_err();

    match error.kind() {
        ErrorKind::SyntaxError(e) => assert_eq!(24, e.position),
        other => panic!("unexpected error {:?}", other),
    }
}
