//! Working out joins from the foreign keys of the analyzed database structure.
use crate::engine::query_builder::{
    BinaryCondition, Computation, ComputationModel, Condition, ConditionModel, QueryBuildError,
    QueryBuildErrorModel, SelectedColumn, SelectedColumnModel, Table, TableModel,
};
use crate::engine::sql::structure::{
    ColumnName, Database, DatabaseModel, ForeignKey, ForeignKeyModel, KeyReference,
    KeyReferenceModel, Server, ServerModel, TableModel as StructureTableModel, TableName,
};
use crate::engine::syntax::{OptionalInput, SqlIdentifierInput, TableInput, TableInputModel};
use crate::engine::{BinaryConditionHolder, Comparison, ConditionHolder, Source, Sourced};
use vstd::prelude::*;

verus! {

/// The index of the first database with the given name.
pub open spec fn database_index(dbs: Seq<DatabaseModel>, name: Seq<char>) -> Option<int> {
    if exists|k: int| 0 <= k < dbs.len() && dbs[k].name == name {
        Some(
            choose|k: int|
                0 <= k < dbs.len() && dbs[k].name == name && forall|m: int|
                    0 <= m < k ==> dbs[m].name != name,
        )
    } else {
        None
    }
}

pub proof fn lemma_database_index_unique(dbs: Seq<DatabaseModel>, name: Seq<char>, k: int)
    requires
        0 <= k < dbs.len(),
        dbs[k].name == name,
        forall|m: int| 0 <= m < k ==> dbs[m].name != name,
    ensures
        database_index(dbs, name) == Some(k),
{
    let j = choose|j: int|
        0 <= j < dbs.len() && dbs[j].name == name && forall|m: int|
            0 <= m < j ==> dbs[m].name != name;
    assert(0 <= j < dbs.len() && dbs[j].name == name && forall|m: int|
        0 <= m < j ==> dbs[m].name != name);
    if j < k {
        assert(dbs[j].name != name);
    }
    if k < j {
        assert(dbs[k].name != name);
    }
}

/// The database named by the input, or the default one when the input names none.
pub open spec fn database_or_default(server: ServerModel, db: OptionalInput<Sourced<Seq<char>>>) -> Result<
    int,
    QueryBuildErrorModel,
> {
    match db {
        OptionalInput::Implicit => match database_index(server.databases, server.params.default_database) {
            Some(k) => Ok(k),
            None => Err(
                QueryBuildErrorModel::DefaultDatabaseNotFound(
                    server.params,
                    server.params.default_database,
                ),
            ),
        },
        OptionalInput::Specified(name) => match database_index(server.databases, name.it) {
            Some(k) => Ok(k),
            None => Err(QueryBuildErrorModel::DatabaseNotFound(server.params, name.it)),
        },
    }
}

/// The first foreign key to `to` among the tables named `from`, in order.
pub open spec fn first_foreign_key(tables: Seq<StructureTableModel>, from: Seq<char>, to: Seq<char>) -> Option<
    ForeignKeyModel,
>
    decreases tables.len(),
{
    if tables.len() == 0 {
        None
    } else if tables[0].name == from && crate::engine::sql::structure::first_key_to(
        tables[0].foreign_keys,
        to,
    ) is Some {
        Some(
            tables[0].foreign_keys[crate::engine::sql::structure::first_key_to(
                tables[0].foreign_keys,
                to,
            )->Some_0],
        )
    } else {
        first_foreign_key(tables.drop_first(), from, to)
    }
}

/// A foreign key from the table `from` to the table `to`; auto joins take the first one.
pub open spec fn find_direct_join(server: ServerModel, from: TableInputModel, to: TableInputModel) -> Result<
    Option<ForeignKeyModel>,
    QueryBuildErrorModel,
> {
    match database_or_default(server, from.database) {
        Err(e) => Err(e),
        Ok(k) => Ok(first_foreign_key(server.databases[k].tables, from.table.it, to.table.it)),
    }
}

/// The key of `from` and the key of `to` that a join between them compares.
pub open spec fn find_join(server: ServerModel, from: TableInputModel, to: TableInputModel) -> Result<
    (KeyReferenceModel, KeyReferenceModel),
    QueryBuildErrorModel,
> {
    match find_direct_join(server, from, to) {
        Err(e) => Err(e),
        Ok(Some(fk)) => Ok((fk.from, fk.to)),
        Ok(None) => match find_direct_join(server, to, from) {
            Err(e) => Err(e),
            Ok(Some(fk)) => Ok((fk.to, fk.from)),
            Ok(None) => Err(QueryBuildErrorModel::JoinNotFound { from: from.table.it, to: to.table.it }),
        },
    }
}

/// `table.column`, as found by looking at the database structure.
pub open spec fn selected_column(table: TableInputModel, column: Seq<char>) -> Sourced<ComputationModel> {
    Sourced {
        it: ComputationModel::SelectedColumn(
            Sourced {
                it: SelectedColumnModel {
                    table: Some(Sourced { it: crate::engine::query_builder::table_of(table), source: Source::Introspection }),
                    column: Sourced { it: column, source: Source::Introspection },
                },
                source: Source::Introspection,
            },
        ),
        source: Source::Introspection,
    }
}

/// `from.from_column = to.to_column`
pub open spec fn join_condition(
    from: TableInputModel,
    from_column: Seq<char>,
    to: TableInputModel,
    to_column: Seq<char>,
) -> Sourced<ConditionModel> {
    Sourced {
        it: ConditionHolder::Binary(
            Sourced {
                it: BinaryConditionHolder {
                    left: selected_column(from, from_column),
                    comparison: Sourced { it: Comparison::Equals, source: Source::Introspection },
                    right: selected_column(to, to_column),
                },
                source: Source::Introspection,
            },
        ),
        source: Source::Introspection,
    }
}

/// The conditions of a join from `from` to `to`: one per column of the foreign key linking them.
pub open spec fn join_conditions(server: ServerModel, from: TableInputModel, to: TableInputModel) -> Result<
    Seq<Sourced<ConditionModel>>,
    QueryBuildErrorModel,
> {
    match find_join(server, from, to) {
        Err(e) => Err(e),
        Ok((f, t)) => if f.key.len() != t.key.len() {
            Err(QueryBuildErrorModel::InvalidForeignKey { from: f, to: t })
        } else {
            Ok(Seq::new(f.key.len(), |i: int| join_condition(from, f.key[i], to, t.key[i])))
        },
    }
}

pub fn database_or_default_exec<'s>(server: &'s Server, db: &OptionalInput<Sourced<SqlIdentifierInput>>) -> (r: Result<
    &'s Database,
    QueryBuildError,
>)
    ensures
        match r {
            Ok(d) => database_or_default(server.deep_view(), db.deep_view()) matches Ok(k) && 0 <= k
                < server.databases@.len() && d == &server.databases@[k],
            Err(e) => database_or_default(server.deep_view(), db.deep_view()) == Err::<int, _>(
                e.deep_view(),
            ),
        },
{
    let n = server.databases.len();
    let mut k: usize = 0;
    let ghost name = match db.deep_view() {
        OptionalInput::Implicit => server.params.default_database.deep_view(),
        OptionalInput::Specified(d) => d.it,
    };
    let ghost dbs = server.deep_view().databases;
    while k < n
        invariant
            n == server.databases@.len(),
            dbs == server.deep_view().databases,
            name == match db.deep_view() {
                OptionalInput::Implicit => server.params.default_database.deep_view(),
                OptionalInput::Specified(d) => d.it,
            },
            k <= n,
            forall|m: int| 0 <= m < k ==> dbs[m].name != name,
        decreases n - k,
    {
        let candidate = server.databases[k].name.as_str();
        let matches = match db {
            OptionalInput::Implicit => crate::engine::syntax::str_eq(candidate, server.params.default_database.as_str()),
            OptionalInput::Specified(d) => crate::engine::syntax::str_eq(candidate, d.it.name),
        };
        if matches {
            proof {
                lemma_database_index_unique(dbs, name, k as int);
            }
            return Ok(&server.databases[k]);
        }
        k += 1;
    }
    proof {
        assert(!(exists|m: int| 0 <= m < dbs.len() && dbs[m].name == name));
    }
    match db {
        OptionalInput::Implicit => Err(
            QueryBuildError::DefaultDatabaseNotFound(
                server.params.copy(),
                server.params.default_database.copy(),
            ),
        ),
        OptionalInput::Specified(d) => Err(
            QueryBuildError::DatabaseNotFound(
                server.params.copy(),
                crate::engine::sql::structure::TableName(d.it.name.to_owned()),
            ),
        ),
    }
}


pub fn first_foreign_key_exec<'s>(tables: &'s Vec<crate::engine::sql::structure::Table>, from: &str, to: &str) -> (r: Option<&'s ForeignKey>)
    ensures
        match r {
            Some(fk) => first_foreign_key(tables.deep_view(), from@, to@) == Some(fk.deep_view()),
            None => first_foreign_key(tables.deep_view(), from@, to@) is None,
        },
{
    let ghost all = tables.deep_view();
    let n = tables.len();
    let mut k: usize = 0;
    assert(all.skip(0) =~= all);
    while k < n
        invariant
            n == tables@.len(),
            all == tables.deep_view(),
            k <= n,
            first_foreign_key(all, from@, to@) == first_foreign_key(all.skip(k as int), from@, to@),
        decreases n - k,
    {
        let table = &tables[k];
        proof {
            assert(all.skip(k as int)[0] == table.deep_view());
            assert(all.skip(k as int).drop_first() =~= all.skip(k + 1));
        }
        if crate::engine::syntax::str_eq(table.name.as_str(), from) {
            if let Some(i) = crate::engine::sql::structure::first_key_to_exec(&table.foreign_keys, to) {
                return Some(&table.foreign_keys[i]);
            }
        }
        k += 1;
    }
    None
}

/// Finds a foreign key from the table `from` to the table `to`.
pub fn find_direct_join_exec<'s>(server: &'s Server, from: &TableInput, to: &TableInput) -> (r: Result<
    Option<&'s ForeignKey>,
    QueryBuildError,
>)
    ensures
        match r {
            Ok(Some(fk)) => find_direct_join(server.deep_view(), from.deep_view(), to.deep_view())
                == Ok::<_, QueryBuildErrorModel>(Some(fk.deep_view())),
            Ok(None) => find_direct_join(server.deep_view(), from.deep_view(), to.deep_view())
                == Ok::<Option<ForeignKeyModel>, QueryBuildErrorModel>(None),
            Err(e) => find_direct_join(server.deep_view(), from.deep_view(), to.deep_view())
                == Err::<Option<ForeignKeyModel>, _>(e.deep_view()),
        },
{
    let database = database_or_default_exec(server, &from.database)?;
    Ok(first_foreign_key_exec(&database.tables, from.table.it.name, to.table.it.name))
}

/// The two keys a join compares: the key of the table joined from, then that of the table joined to.
pub struct FoundForeignKey<'s> {
    pub from: &'s KeyReference,
    pub to: &'s KeyReference,
}

impl<'s> FoundForeignKey<'s> {
    pub fn direct(fk: &'s ForeignKey) -> (r: FoundForeignKey<'s>)
        ensures
            r.from == &fk.from,
            r.to == &fk.to,
    {
        FoundForeignKey { from: &fk.from, to: &fk.to }
    }

    /// The key read backwards, so that "from" and "to" match the join.
    pub fn inverse(fk: &'s ForeignKey) -> (r: FoundForeignKey<'s>)
        ensures
            r.from == &fk.to,
            r.to == &fk.from,
    {
        FoundForeignKey { from: &fk.to, to: &fk.from }
    }
}

pub fn find_join_exec<'s>(server: &'s Server, from: &TableInput, to: &TableInput) -> (r: Result<
    FoundForeignKey<'s>,
    QueryBuildError,
>)
    ensures
        match r {
            Ok(found) => find_join(server.deep_view(), from.deep_view(), to.deep_view())
                == Ok::<_, QueryBuildErrorModel>((found.from.deep_view(), found.to.deep_view())),
            Err(e) => find_join(server.deep_view(), from.deep_view(), to.deep_view())
                == Err::<(KeyReferenceModel, KeyReferenceModel), _>(e.deep_view()),
        },
{
    if let Some(direct_join) = find_direct_join_exec(server, from, to)? {
        return Ok(FoundForeignKey::direct(direct_join));
    }
    if let Some(inverse_join) = find_direct_join_exec(server, to, from)? {
        return Ok(FoundForeignKey::inverse(inverse_join));
    }
    Err(
        QueryBuildError::JoinNotFound {
            from: TableName(from.table.it.name.to_owned()),
            to: TableName(to.table.it.name.to_owned()),
        },
    )
}

pub fn selected_column_exec(table: &TableInput, column: &ColumnName) -> (r: Sourced<Computation>)
    ensures
        r.deep_view() == selected_column(table.deep_view(), column.deep_view()),
{
    Sourced::from_introspection(
        Computation::SelectedColumn(
            Sourced::from_introspection(
                SelectedColumn {
                    table: Some(Sourced::from_introspection(Table::from_input(table))),
                    column: Sourced::from_introspection(
                        crate::engine::query_builder::ColumnName(column.0.clone()),
                    ),
                },
            ),
        ),
    )
}

/// Database structure that can tell how to join two tables.
pub trait Introspective {
    fn join_conditions(&self, from: TableInput, to: TableInput) -> Result<Vec<Sourced<Condition>>, QueryBuildError>;
}

impl Introspective for Server {
    /// One `from.column = to.column` condition per column of the foreign key linking the tables.
    fn join_conditions(&self, from: TableInput, to: TableInput) -> (r: Result<Vec<Sourced<Condition>>, QueryBuildError>)
        ensures
            match r {
                Ok(cs) => join_conditions(self.deep_view(), from.deep_view(), to.deep_view()) == Ok::<_, QueryBuildErrorModel>(cs.deep_view()),
                Err(e) => join_conditions(self.deep_view(), from.deep_view(), to.deep_view()) == Err::<Seq<Sourced<ConditionModel>>, _>(e.deep_view()),
            },
    {
        let join = find_join_exec(self, &from, &to)?;
        let n = join.from.key.columns.len();
        if n != join.to.key.columns.len() {
            // This should never happen.
            return Err(QueryBuildError::InvalidForeignKey { from: join.from.copy(), to: join.to.copy() });
        }
        let ghost f = join.from.deep_view();
        let ghost t = join.to.deep_view();
        let ghost expected = Seq::new(f.key.len(), |i: int| join_condition(from.deep_view(), f.key[i], to.deep_view(), t.key[i]));
        let mut conditions: Vec<Sourced<Condition>> = Vec::new();
        let mut k: usize = 0;
        while k < n
            invariant
                n == join.from.key.columns@.len(),
                n == join.to.key.columns@.len(),
                f == join.from.deep_view(),
                t == join.to.deep_view(),
                expected == Seq::new(f.key.len(), |i: int| join_condition(from.deep_view(), f.key[i], to.deep_view(), t.key[i])),
                k <= n,
                conditions.deep_view() =~= expected.take(k as int),
            decreases n - k,
        {
            let condition = Sourced::from_introspection(
                ConditionHolder::Binary(
                    Sourced::from_introspection(
                        BinaryConditionHolder {
                            left: selected_column_exec(&from, &join.from.key.columns[k]),
                            comparison: Sourced::from_introspection(Comparison::Equals),
                            right: selected_column_exec(&to, &join.to.key.columns[k]),
                        },
                    ),
                ),
            );
            let ghost before = conditions.deep_view();
            conditions.push(condition);
            proof {
                assert(conditions.deep_view() =~= before.push(condition.deep_view()));
                assert(expected.take(k + 1) =~= expected.take(k as int).push(expected[k as int]));
            }
            k += 1;
        }
        assert(expected.take(n as int) =~= expected);
        Ok(conditions)
    }
}

} // verus!

verus! {

/// A join between two tables follows a foreign key from the first to the second when there is
/// one, even when another leads back; otherwise one from the second to the first, read
/// backwards; otherwise none is found. A database that cannot be found is reported as it is.
pub proof fn lemma_find_join_prefers_direct(
    server: ServerModel,
    from: TableInputModel,
    to: TableInputModel,
)
    ensures
        find_direct_join(server, from, to) matches Ok(Some(fk)) ==> find_join(server, from, to)
            == Ok::<_, QueryBuildErrorModel>((fk.from, fk.to)),
        find_direct_join(server, from, to) == Ok::<_, QueryBuildErrorModel>(None::<ForeignKeyModel>)
            ==> match find_direct_join(server, to, from) {
            Ok(Some(fk)) => find_join(server, from, to) == Ok::<_, QueryBuildErrorModel>(
                (fk.to, fk.from),
            ),
            Ok(None) => find_join(server, from, to) == Err::<
                (KeyReferenceModel, KeyReferenceModel),
                _,
            >(QueryBuildErrorModel::JoinNotFound { from: from.table.it, to: to.table.it }),
            Err(e) => find_join(server, from, to) == Err::<
                (KeyReferenceModel, KeyReferenceModel),
                _,
            >(e),
        },
        find_direct_join(server, from, to) matches Err(e) ==> find_join(server, from, to) == Err::<
            (KeyReferenceModel, KeyReferenceModel),
            _,
        >(e),
{
}

/// The conditions of an automatic join come from analyzing the database: each is sourced by
/// introspection, and compares the columns of the foreign key found, pair by pair.
pub proof fn lemma_auto_join_conditions_introspected(
    server: ServerModel,
    from: TableInputModel,
    to: TableInputModel,
)
    ensures
        join_conditions(server, from, to) matches Ok(cs) ==> find_join(server, from, to) matches Ok(
            (f, t),
        ) && cs.len() == f.key.len() && forall|k: int|
            0 <= k < cs.len() ==> (#[trigger] cs[k]).source == Source::Introspection && cs[k].it
                is Binary && cs[k].it->Binary_0.it.left == selected_column(from, f.key[k])
                && cs[k].it->Binary_0.it.right == selected_column(to, t.key[k]),
{
}

} // verus!
