//! The query to render: what stage 4 gathered, with joins worked out from the database
//! structure.
use crate::engine::sql::structure::{TableName as StructureTableName, KeyReference, KeyReferenceModel, ServerParams, ServerParamsModel};
use crate::engine::syntax::stage2::LiteralModel;
use crate::engine::{
    BinaryConditionHolder, ConditionHolder, JoinType, LimitHolder, LiteralValueHolder,
    OrderHolder, SelectableHolder, Sourced, UnaryConditionHolder,
};
use vstd::prelude::*;

pub mod sql_introspection;
pub mod stage5;

verus! {

/// Builds the query a pine describes, given the structure of the database.
///
/// Fails only when a join's conditions cannot be worked out from the foreign keys.
pub fn build_query(
    input: crate::engine::syntax::stage4::Stage4Rep<'_>,
    server: &crate::engine::sql::structure::Server,
) -> (r: Result<Query, crate::error::Error>)
    ensures
        match r {
            Ok(q) => crate::engine::query_builder::stage5::stage5_query(
                input.input@,
                input.deep_view(),
                server.deep_view(),
            ) == Ok::<_, QueryBuildErrorModel>(q.deep_view()),
            Err(e) => match *e.0 {
                crate::error::ErrorKind::QueryBuildError(qe) => crate::engine::query_builder::stage5::stage5_query(
                    input.input@,
                    input.deep_view(),
                    server.deep_view(),
                ) == Err::<QueryModel, _>(qe.deep_view()),
                _ => false,
            },
        },
{
    let builder = crate::engine::query_builder::stage5::Stage5Builder::new(input, server);
    match builder.try_build() {
        Ok(query) => Ok(query),
        Err(e) => Err(crate::error::Error::new(crate::error::ErrorKind::QueryBuildError(e))),
    }
}

pub type LiteralValue = LiteralValueHolder<String>;

pub type Condition = ConditionHolder<Computation>;

pub type BinaryCondition = BinaryConditionHolder<Computation>;

pub type UnaryCondition = UnaryConditionHolder<Computation>;

pub type Selectable = SelectableHolder<Condition, Computation>;

pub type Order = OrderHolder<Selectable>;

pub type Limit = LimitHolder<LiteralValue>;

#[derive(Debug)]
pub struct ColumnName(pub String);

#[derive(Debug)]
pub struct TableName(pub String);

#[derive(Debug)]
pub struct DatabaseName(pub String);

impl DeepView for ColumnName {
    type V = Seq<char>;

    open spec fn deep_view(&self) -> Seq<char> {
        self.0@
    }
}

impl DeepView for TableName {
    type V = Seq<char>;

    open spec fn deep_view(&self) -> Seq<char> {
        self.0@
    }
}

impl DeepView for DatabaseName {
    type V = Seq<char>;

    open spec fn deep_view(&self) -> Seq<char> {
        self.0@
    }
}

#[derive(Debug)]
pub struct Table {
    pub name: Sourced<TableName>,
    pub db: Option<Sourced<DatabaseName>>,
}

pub struct TableModel {
    pub name: Sourced<Seq<char>>,
    pub db: Option<Sourced<Seq<char>>>,
}

impl DeepView for Table {
    type V = TableModel;

    open spec fn deep_view(&self) -> TableModel {
        TableModel { name: self.name.deep_view(), db: self.db.deep_view() }
    }
}

#[derive(Debug)]
pub struct SelectedColumn {
    pub table: Option<Sourced<Table>>,
    pub column: Sourced<ColumnName>,
}

pub struct SelectedColumnModel {
    pub table: Option<Sourced<TableModel>>,
    pub column: Sourced<Seq<char>>,
}

impl DeepView for SelectedColumn {
    type V = SelectedColumnModel;

    open spec fn deep_view(&self) -> SelectedColumnModel {
        SelectedColumnModel { table: self.table.deep_view(), column: self.column.deep_view() }
    }
}

#[derive(Debug)]
pub enum Computation {
    SelectedColumn(Sourced<SelectedColumn>),
    FunctionCall(Sourced<FunctionCall>),
    Value(Sourced<LiteralValue>),
}

#[derive(Debug)]
pub struct FunctionCall {
    pub fn_name: Sourced<String>,
    pub params: Vec<Sourced<Computation>>,
}

pub enum ComputationModel {
    SelectedColumn(Sourced<SelectedColumnModel>),
    FunctionCall(Sourced<FunctionCallModel>),
    Value(Sourced<LiteralModel>),
}

pub struct FunctionCallModel {
    pub fn_name: Sourced<Seq<char>>,
    pub params: Seq<Sourced<ComputationModel>>,
}

pub open spec fn computation_model(c: Computation) -> ComputationModel
    decreases c,
{
    match c {
        Computation::SelectedColumn(col) => ComputationModel::SelectedColumn(col.deep_view()),
        Computation::Value(v) => ComputationModel::Value(v.deep_view()),
        Computation::FunctionCall(f) => ComputationModel::FunctionCall(
            Sourced {
                it: FunctionCallModel {
                    fn_name: f.it.fn_name.deep_view(),
                    params: computations_model(f.it.params@),
                },
                source: f.source,
            },
        ),
    }
}

pub open spec fn computations_model(ps: Seq<Sourced<Computation>>) -> Seq<Sourced<ComputationModel>>
    decreases ps,
{
    if ps.len() == 0 {
        Seq::empty()
    } else {
        computations_model(ps.drop_last()).push(
            Sourced { it: computation_model(ps.last().it), source: ps.last().source },
        )
    }
}

impl DeepView for Computation {
    type V = ComputationModel;

    open spec fn deep_view(&self) -> ComputationModel {
        computation_model(*self)
    }
}

impl DeepView for FunctionCall {
    type V = FunctionCallModel;

    open spec fn deep_view(&self) -> FunctionCallModel {
        FunctionCallModel { fn_name: self.fn_name.deep_view(), params: computations_model(self.params@) }
    }
}

pub proof fn lemma_computations_model_len(ps: Seq<Sourced<Computation>>)
    ensures
        computations_model(ps).len() == ps.len(),
    decreases ps.len(),
{
    if ps.len() > 0 {
        lemma_computations_model_len(ps.drop_last());
    }
}

pub proof fn lemma_computations_model_index(ps: Seq<Sourced<Computation>>, k: int)
    requires
        0 <= k < ps.len(),
    ensures
        computations_model(ps)[k] == (Sourced {
            it: computation_model(ps[k].it),
            source: ps[k].source,
        }),
    decreases ps.len(),
{
    lemma_computations_model_len(ps.drop_last());
    if k < ps.len() - 1 {
        lemma_computations_model_index(ps.drop_last(), k);
    }
}

pub proof fn lemma_computations_model_push(ps: Seq<Sourced<Computation>>, x: Sourced<Computation>)
    ensures
        computations_model(ps.push(x)) == computations_model(ps).push(
            Sourced { it: computation_model(x.it), source: x.source },
        ),
{
    assert(ps.push(x).drop_last() =~= ps);
}

pub type ConditionModel = ConditionHolder<ComputationModel>;

pub type SelectableModel = SelectableHolder<ConditionModel, ComputationModel>;

pub type OrderModel = OrderHolder<SelectableModel>;

#[derive(Debug)]
pub struct ExplicitJoin {
    pub join_type: Sourced<JoinType>,
    /// The table to join to.
    pub target_table: Sourced<Table>,
    pub conditions: Vec<Sourced<Condition>>,
}

pub struct ExplicitJoinModel {
    pub join_type: Sourced<JoinType>,
    pub target_table: Sourced<TableModel>,
    pub conditions: Seq<Sourced<ConditionModel>>,
}

impl DeepView for ExplicitJoin {
    type V = ExplicitJoinModel;

    open spec fn deep_view(&self) -> ExplicitJoinModel {
        ExplicitJoinModel {
            join_type: self.join_type,
            target_table: self.target_table.deep_view(),
            conditions: self.conditions.deep_view(),
        }
    }
}

#[derive(Debug)]
pub struct Query {
    pub input: String,
    pub from: Sourced<Table>,
    pub joins: Vec<Sourced<ExplicitJoin>>,
    pub select: Vec<Sourced<Selectable>>,
    pub filters: Vec<Sourced<Condition>>,
    pub orders: Vec<Sourced<Order>>,
    pub group_by: Vec<Sourced<Selectable>>,
    pub limit: Sourced<Limit>,
}

pub struct QueryModel {
    pub input: Seq<char>,
    pub from: Sourced<TableModel>,
    pub joins: Seq<Sourced<ExplicitJoinModel>>,
    pub select: Seq<Sourced<SelectableModel>>,
    pub filters: Seq<Sourced<ConditionModel>>,
    pub orders: Seq<Sourced<OrderModel>>,
    pub group_by: Seq<Sourced<SelectableModel>>,
    pub limit: Sourced<LimitHolder<LiteralModel>>,
}

impl DeepView for Query {
    type V = QueryModel;

    open spec fn deep_view(&self) -> QueryModel {
        QueryModel {
            input: self.input@,
            from: self.from.deep_view(),
            joins: self.joins.deep_view(),
            select: self.select.deep_view(),
            filters: self.filters.deep_view(),
            orders: self.orders.deep_view(),
            group_by: self.group_by.deep_view(),
            limit: self.limit.deep_view(),
        }
    }
}

/// Why a query could not be built.
#[allow(inconsistent_fields)]
#[derive(Debug)]
pub enum QueryBuildError {
    /// A foreign key whose two sides have different numbers of columns.
    InvalidForeignKey { from: KeyReference, to: KeyReference },
    /// No foreign key links the two tables, in either direction.
    JoinNotFound { from: StructureTableName, to: StructureTableName },
    /// The server has no database by the name of its default database.
    DefaultDatabaseNotFound(ServerParams, StructureTableName),
    /// The server has no database by the given name.
    DatabaseNotFound(ServerParams, StructureTableName),
}

pub enum QueryBuildErrorModel {
    InvalidForeignKey { from: KeyReferenceModel, to: KeyReferenceModel },
    JoinNotFound { from: Seq<char>, to: Seq<char> },
    DefaultDatabaseNotFound(ServerParamsModel, Seq<char>),
    DatabaseNotFound(ServerParamsModel, Seq<char>),
}

impl DeepView for QueryBuildError {
    type V = QueryBuildErrorModel;

    open spec fn deep_view(&self) -> QueryBuildErrorModel {
        match self {
            QueryBuildError::InvalidForeignKey { from, to } => QueryBuildErrorModel::InvalidForeignKey {
                from: from.deep_view(),
                to: to.deep_view(),
            },
            QueryBuildError::JoinNotFound { from, to } => QueryBuildErrorModel::JoinNotFound {
                from: from.deep_view(),
                to: to.deep_view(),
            },
            QueryBuildError::DefaultDatabaseNotFound(p, d) => QueryBuildErrorModel::DefaultDatabaseNotFound(
                p.deep_view(),
                d.deep_view(),
            ),
            QueryBuildError::DatabaseNotFound(p, d) => QueryBuildErrorModel::DatabaseNotFound(
                p.deep_view(),
                d.deep_view(),
            ),
        }
    }
}


/// The table of a query, as the input named it.
pub open spec fn table_of(t: crate::engine::syntax::TableInputModel) -> TableModel {
    TableModel {
        name: t.table,
        db: match t.database {
            crate::engine::syntax::OptionalInput::Implicit => None,
            crate::engine::syntax::OptionalInput::Specified(d) => Some(d),
        },
    }
}

impl Table {
    /// The table named by the input.
    pub fn from_input(value: &crate::engine::syntax::TableInput) -> (r: Table)
        ensures
            r.deep_view() == table_of(value.deep_view()),
    {
        Table {
            db: match value.database {
                crate::engine::syntax::OptionalInput::Implicit => None,
                crate::engine::syntax::OptionalInput::Specified(d) => Some(
                    Sourced { it: DatabaseName(d.it.name.to_owned()), source: d.source },
                ),
            },
            name: Sourced { it: TableName(value.table.it.name.to_owned()), source: value.table.source },
        }
    }
}

} // verus!
