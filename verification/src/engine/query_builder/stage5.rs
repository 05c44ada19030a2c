//! Builds the query: every piece of the stage 4 representation is turned into its owned,
//! renderable form, and joins get their conditions from the database structure.
use crate::engine::query_builder::sql_introspection::Introspective;
use crate::engine::query_builder::{
    table_of, Computation, ComputationModel, Condition, ConditionModel, DatabaseName,
    ExplicitJoin, ExplicitJoinModel, FunctionCall, FunctionCallModel, LiteralValue, Order,
    OrderModel, Query, QueryBuildError, QueryBuildErrorModel, QueryModel, Selectable,
    SelectableModel, SelectedColumn, SelectedColumnModel, Table, TableModel, ColumnName,
};
use crate::engine::sql::structure::{Server, ServerModel};
use crate::engine::syntax::stage2::LiteralModel;
use crate::engine::syntax::stage4::{
    Stage4ComputationInput, Stage4ComputationModel, Stage4Condition, Stage4ConditionModel,
    Stage4Join, Stage4JoinModel, Stage4Limit, Stage4Order, Stage4OrderModel, Stage4Rep,
    Stage4RepModel, Stage4Selectable, Stage4SelectableModel,
};
use crate::engine::syntax::{TableInput, TableInputModel};
use crate::engine::{
    BinaryConditionHolder, ConditionHolder, JoinConditions, JoinConditionsModel, LimitHolder,
    LiteralValueHolder, OrderHolder, SelectableHolder, Sourced, UnaryConditionHolder,
};
use vstd::prelude::*;

verus! {

// ---------------------------------------------------------------------------------------------
// The query, as a function of the stage 4 representation and the database structure

/// A computation of the query; when `simplify` holds, columns are given without their table.
pub open spec fn build_computation(c: Stage4ComputationModel, simplify: bool) -> ComputationModel
    decreases c,
{
    match c {
        Stage4ComputationModel::Column(col) => ComputationModel::SelectedColumn(
            Sourced {
                it: SelectedColumnModel {
                    table: if simplify {
                        None
                    } else {
                        Some(Sourced { it: table_of(col.it.table.it), source: col.it.table.source })
                    },
                    column: col.it.column,
                },
                source: col.source,
            },
        ),
        Stage4ComputationModel::FunctionCall(f) => ComputationModel::FunctionCall(
            Sourced {
                it: FunctionCallModel {
                    fn_name: f.it.fn_name,
                    params: build_computations(f.it.params, simplify),
                },
                source: f.source,
            },
        ),
        Stage4ComputationModel::Value(v) => ComputationModel::Value(v),
    }
}

pub open spec fn build_computations(ps: Seq<Sourced<Stage4ComputationModel>>, simplify: bool) -> Seq<
    Sourced<ComputationModel>,
>
    decreases ps,
{
    if ps.len() == 0 {
        Seq::empty()
    } else {
        build_computations(ps.drop_last(), simplify).push(
            Sourced { it: build_computation(ps.last().it, simplify), source: ps.last().source },
        )
    }
}

pub open spec fn build_sourced(c: Sourced<Stage4ComputationModel>, simplify: bool) -> Sourced<ComputationModel> {
    Sourced { it: build_computation(c.it, simplify), source: c.source }
}

pub open spec fn build_condition(c: Sourced<Stage4ConditionModel>, simplify: bool) -> Sourced<ConditionModel> {
    Sourced {
        it: match c.it {
            ConditionHolder::Unary(u) => ConditionHolder::Unary(
                Sourced {
                    it: match u.it {
                        UnaryConditionHolder::IsNull(o) => UnaryConditionHolder::IsNull(
                            build_sourced(o, simplify),
                        ),
                        UnaryConditionHolder::IsNotNull(o) => UnaryConditionHolder::IsNotNull(
                            build_sourced(o, simplify),
                        ),
                    },
                    source: u.source,
                },
            ),
            ConditionHolder::Binary(b) => ConditionHolder::Binary(
                Sourced {
                    it: BinaryConditionHolder {
                        left: build_sourced(b.it.left, simplify),
                        comparison: b.it.comparison,
                        right: build_sourced(b.it.right, simplify),
                    },
                    source: b.source,
                },
            ),
        },
        source: c.source,
    }
}

pub open spec fn build_conditions(cs: Seq<Sourced<Stage4ConditionModel>>, simplify: bool) -> Seq<Sourced<ConditionModel>> {
    cs.map_values(|c: Sourced<Stage4ConditionModel>| build_condition(c, simplify))
}

pub open spec fn build_selectable(s: Sourced<Stage4SelectableModel>, simplify: bool) -> Sourced<SelectableModel> {
    Sourced {
        it: match s.it {
            SelectableHolder::Condition(c) => SelectableHolder::Condition(build_condition(c, simplify)),
            SelectableHolder::Computation(c) => SelectableHolder::Computation(build_sourced(c, simplify)),
        },
        source: s.source,
    }
}

pub open spec fn build_selectables(ss: Seq<Sourced<Stage4SelectableModel>>, simplify: bool) -> Seq<Sourced<SelectableModel>> {
    ss.map_values(|s: Sourced<Stage4SelectableModel>| build_selectable(s, simplify))
}

pub open spec fn build_orders(os: Seq<Sourced<Stage4OrderModel>>, simplify: bool) -> Seq<Sourced<OrderModel>> {
    os.map_values(
        |o: Sourced<Stage4OrderModel>|
            Sourced {
                it: OrderHolder {
                    selectable: build_selectable(o.it.selectable, simplify),
                    direction: o.it.direction,
                },
                source: o.source,
            },
    )
}

pub open spec fn sourced_table(t: Sourced<TableInputModel>) -> Sourced<TableModel> {
    Sourced { it: table_of(t.it), source: t.source }
}

/// A join of the query.
///
/// Pines read `people | preferences` as "select from preferences, join people", so the join
/// is to the table the pines worked with before it. Conditions that were not given are found
/// in the database structure, from the first table of the query to the join's target.
pub open spec fn build_join(
    j: Sourced<Stage4JoinModel>,
    from: Sourced<TableInputModel>,
    server: ServerModel,
    simplify: bool,
) -> Result<Sourced<ExplicitJoinModel>, QueryBuildErrorModel> {
    let conditions = match j.it.conditions {
        JoinConditionsModel::Auto => crate::engine::query_builder::sql_introspection::join_conditions(
            server,
            from.it,
            j.it.target_table.it,
        ),
        JoinConditionsModel::Explicit(cs) => Ok(build_conditions(cs, simplify)),
    };
    match conditions {
        Err(e) => Err(e),
        Ok(conditions) => Ok(
            Sourced {
                it: ExplicitJoinModel {
                    join_type: j.it.join_type,
                    target_table: sourced_table(j.it.source_table),
                    conditions,
                },
                source: j.source,
            },
        ),
    }
}

/// The joins of the query, or the error of the first that cannot be built.
pub open spec fn build_joins(
    js: Seq<Sourced<Stage4JoinModel>>,
    from: Sourced<TableInputModel>,
    server: ServerModel,
    simplify: bool,
) -> Result<Seq<Sourced<ExplicitJoinModel>>, QueryBuildErrorModel>
    decreases js.len(),
{
    if js.len() == 0 {
        Ok(Seq::empty())
    } else {
        match build_joins(js.drop_last(), from, server, simplify) {
            Err(e) => Err(e),
            Ok(built) => match build_join(js.last(), from, server, simplify) {
                Err(e) => Err(e),
                Ok(j) => Ok(built.push(j)),
            },
        }
    }
}

/// The query the stage 4 representation describes, given the database structure.
///
/// Without joins, columns are named without their table. The query selects from the target
/// of the last join, or from the first table when there is no join.
pub open spec fn stage5_query(input: Seq<char>, rep: Stage4RepModel, server: ServerModel) -> Result<
    QueryModel,
    QueryBuildErrorModel,
> {
    let simplify = rep.joins.len() == 0;
    match build_joins(rep.joins, rep.from, server, simplify) {
        Err(e) => Err(e),
        Ok(joins) => Ok(
            QueryModel {
                input,
                from: if rep.joins.len() == 0 {
                    sourced_table(rep.from)
                } else {
                    sourced_table(rep.joins.last().it.target_table)
                },
                joins,
                select: build_selectables(rep.selected_columns, simplify),
                filters: build_conditions(rep.filters, simplify),
                orders: build_orders(rep.orders, simplify),
                group_by: build_selectables(rep.group_by, simplify),
                limit: rep.limit,
            },
        ),
    }
}


// ---------------------------------------------------------------------------------------------
// Building it

/// A join that cannot be built makes the whole list fail with its error.
proof fn lemma_build_joins_prefix_err(
    js: Seq<Sourced<Stage4JoinModel>>,
    k: int,
    from: Sourced<TableInputModel>,
    server: ServerModel,
    simplify: bool,
)
    requires
        0 <= k <= js.len(),
        build_joins(js.take(k), from, server, simplify) is Err,
    ensures
        build_joins(js, from, server, simplify) == build_joins(js.take(k), from, server, simplify),
    decreases js.len(),
{
    if k == js.len() {
        assert(js.take(k) =~= js);
    } else {
        assert(js.drop_last().take(k) =~= js.take(k));
        lemma_build_joins_prefix_err(js.drop_last(), k, from, server, simplify);
    }
}

pub proof fn lemma_build_computations_push(ps: Seq<Sourced<Stage4ComputationModel>>, x: Sourced<Stage4ComputationModel>, simplify: bool)
    ensures
        build_computations(ps.push(x), simplify) == build_computations(ps, simplify).push(build_sourced(x, simplify)),
{
    assert(ps.push(x).drop_last() =~= ps);
}

pub fn owned_literal(v: &Sourced<LiteralValueHolder<&str>>) -> (r: Sourced<LiteralValue>)
    ensures
        r.deep_view() == v.deep_view(),
{
    let it = match v.it {
        LiteralValueHolder::Number(n) => LiteralValueHolder::Number(n.to_owned()),
        LiteralValueHolder::String(s) => LiteralValueHolder::String(s.to_owned()),
    };
    Sourced { it, source: v.source }
}

pub struct Stage5Builder<'a> {
    pub input: Stage4Rep<'a>,
    pub from: Sourced<TableInput<'a>>,
    pub server: &'a Server,
}

impl<'a> Stage5Builder<'a> {
    pub fn new(input: Stage4Rep<'a>, server: &'a Server) -> (r: Self)
        ensures
            r.input == input,
            r.from == input.from,
            r.server == server,
    {
        let from = input.from;
        Stage5Builder { input, from, server }
    }

    /// Builds the query; fails only when the conditions of a join cannot be worked out.
    #[verifier::rlimit(60)]
    pub fn try_build(self) -> (r: Result<Query, QueryBuildError>)
        ensures
            match r {
                Ok(q) => stage5_query(self.input.input@, self.rep(), self.server.deep_view())
                    == Ok::<_, QueryBuildErrorModel>(q.deep_view()),
                Err(e) => stage5_query(self.input.input@, self.rep(), self.server.deep_view())
                    == Err::<QueryModel, _>(e.deep_view()),
            },
    {
        let select = self.process_selects();
        let filters = self.process_filters();
        let joins = self.process_joins()?;
        let orders = self.process_orders();
        let group_by = self.process_group_by();
        // This makes sure we select FROM the table from the last pine.
        let n = self.input.joins.len();
        let from_input = if n == 0 {
            self.from
        } else {
            self.input.joins[n - 1].it.target_table
        };
        let from = Sourced { it: Table::from_input(&from_input.it), source: from_input.source };
        let limit = self.owned_limit();
        Ok(
            Query {
                input: self.input.input.to_owned(),
                from,
                joins,
                select,
                filters,
                orders,
                group_by,
                limit,
            },
        )
    }

    /// What the builder builds from: its input, with the table it was given to start from.
    pub open spec fn rep(&self) -> Stage4RepModel {
        Stage4RepModel { from: self.from.deep_view(), ..self.input.deep_view() }
    }

    pub open spec fn simplify(&self) -> bool {
        self.input.joins@.len() == 0
    }

    /// When only one table is involved, columns can be given without it.
    pub fn is_single_table_query(&self) -> (r: bool)
        ensures
            r == self.simplify(),
    {
        self.input.joins.len() == 0
    }

    fn owned_limit(&self) -> (r: Sourced<LimitHolder<LiteralValue>>)
        ensures
            r.deep_view() == self.input.limit.deep_view(),
    {
        let it = match &self.input.limit.it {
            LimitHolder::Implicit() => LimitHolder::Implicit(),
            LimitHolder::RowCount(count) => LimitHolder::RowCount(owned_literal(count)),
            LimitHolder::Range { start, count } => LimitHolder::Range {
                start: owned_literal(start),
                count: owned_literal(count),
            },
        };
        Sourced { it, source: self.input.limit.source }
    }

    pub fn process_computation(&self, c: &Sourced<Stage4ComputationInput<'a>>) -> (r: Sourced<Computation>)
        ensures
            r.deep_view() == build_sourced(c.deep_view(), self.simplify()),
        decreases c,
    {
        let simplify = self.is_single_table_query();
        let it = match &c.it {
            Stage4ComputationInput::Column(col) => Computation::SelectedColumn(
                Sourced {
                    it: SelectedColumn {
                        table: if simplify {
                            None
                        } else {
                            Some(Sourced { it: Table::from_input(&col.it.table.it), source: col.it.table.source })
                        },
                        column: Sourced { it: ColumnName(col.it.column.it.name.to_owned()), source: col.it.column.source },
                    },
                    source: col.source,
                },
            ),
            Stage4ComputationInput::Value(v) => Computation::Value(owned_literal(v)),
            Stage4ComputationInput::FunctionCall(f) => {
                let n = f.it.params.len();
                let ghost params_model = crate::engine::syntax::stage4::stage4_computations_model(f.it.params@);
                proof {
                    crate::engine::syntax::stage4::lemma_stage4_computations_model_len(f.it.params@);
                }
                let mut params: Vec<Sourced<Computation>> = Vec::new();
                let mut k: usize = 0;
                while k < n
                    invariant
                        c.it == Stage4ComputationInput::FunctionCall(*f),
                        n == f.it.params@.len(),
                        params_model == crate::engine::syntax::stage4::stage4_computations_model(f.it.params@),
                        params_model.len() == n,
                        k <= n,
                        crate::engine::query_builder::computations_model(params@) == build_computations(params_model.take(k as int), self.simplify()),
                    decreases n - k,
                {
                    proof {
                        let g = c.it->FunctionCall_0;
                        assert(decreases_to!(c => c.it));
                        assert(decreases_to!(c.it => g));
                        assert(decreases_to!(g => g.it));
                        assert(decreases_to!(g.it => g.it.params));
                        assert(decreases_to!(g.it.params => g.it.params@));
                        assert(decreases_to!(g.it.params@ => g.it.params@[k as int]));
                    }
                    let built = self.process_computation(&f.it.params[k]);
                    let ghost before = params@;
                    params.push(built);
                    proof {
                        crate::engine::query_builder::lemma_computations_model_push(before, built);
                        crate::engine::syntax::stage4::lemma_stage4_computations_model_index(f.it.params@, k as int);
                        assert(params_model.take(k + 1) =~= params_model.take(k as int).push(params_model[k as int]));
                        lemma_build_computations_push(params_model.take(k as int), params_model[k as int], self.simplify());
                    }
                    k += 1;
                }
                proof {
                    assert(params_model.take(n as int) =~= params_model);
                }
                Computation::FunctionCall(
                    Sourced {
                        it: FunctionCall {
                            fn_name: Sourced { it: f.it.fn_name.it.name.to_owned(), source: f.it.fn_name.source },
                            params,
                        },
                        source: f.source,
                    },
                )
            },
        };
        Sourced { it, source: c.source }
    }

    pub fn process_condition(&self, c: &Sourced<Stage4Condition<'a>>) -> (r: Sourced<Condition>)
        ensures
            r.deep_view() == build_condition(c.deep_view(), self.simplify()),
    {
        let it = match &c.it {
            ConditionHolder::Unary(u) => ConditionHolder::Unary(self.process_unary_condition(u)),
            ConditionHolder::Binary(b) => ConditionHolder::Binary(self.process_binary_condition(b)),
        };
        Sourced { it, source: c.source }
    }

    pub fn process_binary_condition(&self, b: &Sourced<BinaryConditionHolder<Stage4ComputationInput<'a>>>) -> (r: Sourced<BinaryConditionHolder<Computation>>)
        ensures
            r.deep_view() == (Sourced {
                it: BinaryConditionHolder {
                    left: build_sourced(b.it.left.deep_view(), self.simplify()),
                    comparison: b.it.comparison,
                    right: build_sourced(b.it.right.deep_view(), self.simplify()),
                },
                source: b.source,
            }),
    {
        Sourced {
            it: BinaryConditionHolder {
                left: self.process_computation(&b.it.left),
                comparison: b.it.comparison,
                right: self.process_computation(&b.it.right),
            },
            source: b.source,
        }
    }

    pub fn process_unary_condition(&self, u: &Sourced<UnaryConditionHolder<Stage4ComputationInput<'a>>>) -> (r: Sourced<UnaryConditionHolder<Computation>>)
        ensures
            r.deep_view() == (Sourced {
                it: match u.it.deep_view() {
                    UnaryConditionHolder::IsNull(o) => UnaryConditionHolder::IsNull(build_sourced(o, self.simplify())),
                    UnaryConditionHolder::IsNotNull(o) => UnaryConditionHolder::IsNotNull(build_sourced(o, self.simplify())),
                },
                source: u.source,
            }),
    {
        let it = match &u.it {
            UnaryConditionHolder::IsNull(o) => UnaryConditionHolder::IsNull(self.process_computation(o)),
            UnaryConditionHolder::IsNotNull(o) => UnaryConditionHolder::IsNotNull(self.process_computation(o)),
        };
        Sourced { it, source: u.source }
    }

    pub fn process_conditions(&self, cs: &Vec<Sourced<Stage4Condition<'a>>>) -> (r: Vec<Sourced<Condition>>)
        ensures
            r.deep_view() == build_conditions(cs.deep_view(), self.simplify()),
    {
        let mut out: Vec<Sourced<Condition>> = Vec::new();
        let n = cs.len();
        let mut k: usize = 0;
        while k < n
            invariant
                n == cs@.len(),
                k <= n,
                out.deep_view() =~= build_conditions(cs.deep_view(), self.simplify()).take(k as int),
            decreases n - k,
        {
            let c = self.process_condition(&cs[k]);
            let ghost before = out.deep_view();
            out.push(c);
            proof {
                let all = build_conditions(cs.deep_view(), self.simplify());
                assert(out.deep_view() =~= before.push(c.deep_view()));
                assert(all.take(k + 1) =~= all.take(k as int).push(all[k as int]));
            }
            k += 1;
        }
        out
    }

    pub fn process_selectable(&self, s: &Sourced<Stage4Selectable<'a>>) -> (r: Sourced<Selectable>)
        ensures
            r.deep_view() == build_selectable(s.deep_view(), self.simplify()),
    {
        let it = match &s.it {
            SelectableHolder::Condition(c) => SelectableHolder::Condition(self.process_condition(c)),
            SelectableHolder::Computation(c) => SelectableHolder::Computation(self.process_computation(c)),
        };
        Sourced { it, source: s.source }
    }

    pub fn process_selectables(&self, ss: &Vec<Sourced<Stage4Selectable<'a>>>) -> (r: Vec<Sourced<Selectable>>)
        ensures
            r.deep_view() == build_selectables(ss.deep_view(), self.simplify()),
    {
        let mut out: Vec<Sourced<Selectable>> = Vec::new();
        let n = ss.len();
        let mut k: usize = 0;
        while k < n
            invariant
                n == ss@.len(),
                k <= n,
                out.deep_view() =~= build_selectables(ss.deep_view(), self.simplify()).take(k as int),
            decreases n - k,
        {
            let s = self.process_selectable(&ss[k]);
            let ghost before = out.deep_view();
            out.push(s);
            proof {
                let all = build_selectables(ss.deep_view(), self.simplify());
                assert(out.deep_view() =~= before.push(s.deep_view()));
                assert(all.take(k + 1) =~= all.take(k as int).push(all[k as int]));
            }
            k += 1;
        }
        out
    }

    pub fn process_selects(&self) -> (r: Vec<Sourced<Selectable>>)
        ensures
            r.deep_view() == build_selectables(self.input.selected_columns.deep_view(), self.simplify()),
    {
        self.process_selectables(&self.input.selected_columns)
    }

    pub fn process_group_by(&self) -> (r: Vec<Sourced<Selectable>>)
        ensures
            r.deep_view() == build_selectables(self.input.group_by.deep_view(), self.simplify()),
    {
        self.process_selectables(&self.input.group_by)
    }

    pub fn process_filters(&self) -> (r: Vec<Sourced<Condition>>)
        ensures
            r.deep_view() == build_conditions(self.input.filters.deep_view(), self.simplify()),
    {
        self.process_conditions(&self.input.filters)
    }

    pub fn process_orders(&self) -> (r: Vec<Sourced<Order>>)
        ensures
            r.deep_view() == build_orders(self.input.orders.deep_view(), self.simplify()),
    {
        let mut out: Vec<Sourced<Order>> = Vec::new();
        let n = self.input.orders.len();
        let mut k: usize = 0;
        while k < n
            invariant
                n == self.input.orders@.len(),
                k <= n,
                out.deep_view() =~= build_orders(self.input.orders.deep_view(), self.simplify()).take(k as int),
            decreases n - k,
        {
            let order = &self.input.orders[k];
            let o = Sourced {
                it: OrderHolder {
                    selectable: self.process_selectable(&order.it.selectable),
                    direction: order.it.direction,
                },
                source: order.source,
            };
            let ghost before = out.deep_view();
            out.push(o);
            proof {
                let all = build_orders(self.input.orders.deep_view(), self.simplify());
                assert(out.deep_view() =~= before.push(o.deep_view()));
                assert(all.take(k + 1) =~= all.take(k as int).push(all[k as int]));
            }
            k += 1;
        }
        out
    }

    pub fn process_join(&self, join: &Sourced<Stage4Join<'a>>) -> (r: Result<Sourced<ExplicitJoin>, QueryBuildError>)
        ensures
            match r {
                Ok(j) => build_join(join.deep_view(), self.from.deep_view(), self.server.deep_view(), self.simplify()) == Ok::<_, QueryBuildErrorModel>(j.deep_view()),
                Err(e) => build_join(join.deep_view(), self.from.deep_view(), self.server.deep_view(), self.simplify()) == Err::<Sourced<ExplicitJoinModel>, _>(e.deep_view()),
            },
    {
        let conditions = match &join.it.conditions {
            JoinConditions::Auto => self.server.join_conditions(self.from.it, join.it.target_table.it)?,
            JoinConditions::Explicit(conditions) => self.process_conditions(conditions),
        };
        Ok(
            Sourced {
                it: ExplicitJoin {
                    join_type: join.it.join_type,
                    // We join to the SOURCE table because we always swap the tables of a join:
                    // `people | preference` selects from preference and joins people.
                    target_table: Sourced { it: Table::from_input(&join.it.source_table.it), source: join.it.source_table.source },
                    conditions,
                },
                source: join.source,
            },
        )
    }

    #[verifier::rlimit(60)]
    pub fn process_joins(&self) -> (r: Result<Vec<Sourced<ExplicitJoin>>, QueryBuildError>)
        ensures
            match r {
                Ok(js) => build_joins(self.input.joins.deep_view(), self.from.deep_view(), self.server.deep_view(), self.simplify()) == Ok::<_, QueryBuildErrorModel>(js.deep_view()),
                Err(e) => build_joins(self.input.joins.deep_view(), self.from.deep_view(), self.server.deep_view(), self.simplify()) == Err::<Seq<Sourced<ExplicitJoinModel>>, _>(e.deep_view()),
            },
    {
        let ghost all = self.input.joins.deep_view();
        let mut out: Vec<Sourced<ExplicitJoin>> = Vec::new();
        let n = self.input.joins.len();
        let mut k: usize = 0;
        proof {
            assert(all.take(0) =~= Seq::<Sourced<Stage4JoinModel>>::empty());
            assert(out.deep_view() =~= Seq::<Sourced<ExplicitJoinModel>>::empty());
        }
        while k < n
            invariant
                n == self.input.joins@.len(),
                all == self.input.joins.deep_view(),
                k <= n,
                build_joins(all.take(k as int), self.from.deep_view(), self.server.deep_view(), self.simplify()) == Ok::<_, QueryBuildErrorModel>(out.deep_view()),
            decreases n - k,
        {
            proof {
                assert(all.take(k + 1).drop_last() =~= all.take(k as int));
                assert(all.take(k + 1).last() == all[k as int]);
            }
            let j = match self.process_join(&self.input.joins[k]) {
                Ok(j) => j,
                Err(e) => {
                    proof {
                        lemma_build_joins_prefix_err(all, k + 1, self.from.deep_view(), self.server.deep_view(), self.simplify());
                    }
                    return Err(e);
                },
            };
            let ghost before = out.deep_view();
            out.push(j);
            proof {
                assert(out.deep_view() =~= before.push(j.deep_view()));
            }
            k += 1;
        }
        proof {
            assert(all.take(n as int) =~= all);
        }
        Ok(out)
    }
}

} // verus!

verus! {

// ---------------------------------------------------------------------------------------------
// What every built query keeps

/// Whether no column of the computation is named with its table.
pub open spec fn without_tables(c: ComputationModel) -> bool
    decreases c,
{
    match c {
        ComputationModel::SelectedColumn(col) => col.it.table is None,
        ComputationModel::FunctionCall(f) => all_without_tables(f.it.params),
        ComputationModel::Value(_) => true,
    }
}

pub open spec fn all_without_tables(ps: Seq<Sourced<ComputationModel>>) -> bool
    decreases ps,
{
    if ps.len() == 0 {
        true
    } else {
        all_without_tables(ps.drop_last()) && without_tables(ps.last().it)
    }
}

pub open spec fn condition_without_tables(c: ConditionModel) -> bool {
    match c {
        ConditionHolder::Unary(u) => match u.it {
            UnaryConditionHolder::IsNull(o) => without_tables(o.it),
            UnaryConditionHolder::IsNotNull(o) => without_tables(o.it),
        },
        ConditionHolder::Binary(b) => without_tables(b.it.left.it) && without_tables(b.it.right.it),
    }
}

pub open spec fn selectable_without_tables(s: SelectableModel) -> bool {
    match s {
        SelectableHolder::Condition(c) => condition_without_tables(c.it),
        SelectableHolder::Computation(c) => without_tables(c.it),
    }
}

proof fn lemma_simplified_computation(c: Stage4ComputationModel)
    ensures
        without_tables(build_computation(c, true)),
    decreases c,
{
    if let Stage4ComputationModel::FunctionCall(f) = c {
        lemma_simplified_computations(f.it.params);
    }
}

proof fn lemma_simplified_computations(ps: Seq<Sourced<Stage4ComputationModel>>)
    ensures
        all_without_tables(build_computations(ps, true)),
    decreases ps,
{
    if ps.len() > 0 {
        lemma_simplified_computations(ps.drop_last());
        lemma_simplified_computation(ps.last().it);
        let built = build_computations(ps, true);
        assert(built.drop_last() =~= build_computations(ps.drop_last(), true));
    }
}

proof fn lemma_simplified_condition(c: Sourced<Stage4ConditionModel>)
    ensures
        condition_without_tables(build_condition(c, true).it),
{
    match c.it {
        ConditionHolder::Unary(u) => match u.it {
            UnaryConditionHolder::IsNull(o) => lemma_simplified_computation(o.it),
            UnaryConditionHolder::IsNotNull(o) => lemma_simplified_computation(o.it),
        },
        ConditionHolder::Binary(b) => {
            lemma_simplified_computation(b.it.left.it);
            lemma_simplified_computation(b.it.right.it);
        },
    }
}

proof fn lemma_simplified_selectable(s: Sourced<Stage4SelectableModel>)
    ensures
        selectable_without_tables(build_selectable(s, true).it),
{
    match s.it {
        SelectableHolder::Condition(c) => lemma_simplified_condition(c),
        SelectableHolder::Computation(c) => lemma_simplified_computation(c.it),
    }
}

/// A query on a single table names its columns without the table: whatever it selects,
/// filters on, orders by or groups by.
pub proof fn lemma_single_table_queries_omit_tables(
    input: Seq<char>,
    rep: Stage4RepModel,
    server: ServerModel,
)
    requires
        rep.joins.len() == 0,
    ensures
        stage5_query(input, rep, server) matches Ok(q) ==> {
            &&& forall|k: int|
                0 <= k < q.select.len() ==> selectable_without_tables(#[trigger] q.select[k].it)
            &&& forall|k: int|
                0 <= k < q.filters.len() ==> condition_without_tables(#[trigger] q.filters[k].it)
            &&& forall|k: int|
                0 <= k < q.orders.len() ==> selectable_without_tables(
                    #[trigger] q.orders[k].it.selectable.it,
                )
            &&& forall|k: int|
                0 <= k < q.group_by.len() ==> selectable_without_tables(#[trigger] q.group_by[k].it)
        },
{
    if let Ok(q) = stage5_query(input, rep, server) {
        assert forall|k: int| 0 <= k < q.select.len() implies selectable_without_tables(
            #[trigger] q.select[k].it,
        ) by {
            lemma_simplified_selectable(rep.selected_columns[k]);
        }
        assert forall|k: int| 0 <= k < q.filters.len() implies condition_without_tables(
            #[trigger] q.filters[k].it,
        ) by {
            lemma_simplified_condition(rep.filters[k]);
        }
        assert forall|k: int| 0 <= k < q.orders.len() implies selectable_without_tables(
            #[trigger] q.orders[k].it.selectable.it,
        ) by {
            lemma_simplified_selectable(rep.orders[k].it.selectable);
        }
        assert forall|k: int| 0 <= k < q.group_by.len() implies selectable_without_tables(
            #[trigger] q.group_by[k].it,
        ) by {
            lemma_simplified_selectable(rep.group_by[k]);
        }
    }
}

proof fn lemma_built_joins_swap(
    js: Seq<Sourced<Stage4JoinModel>>,
    from: Sourced<TableInputModel>,
    server: ServerModel,
    simplify: bool,
)
    ensures
        build_joins(js, from, server, simplify) matches Ok(built) ==> built.len() == js.len()
            && forall|k: int|
            0 <= k < js.len() ==> (#[trigger] built[k]).it.target_table == sourced_table(
                js[k].it.source_table,
            ) && built[k].it.join_type == js[k].it.join_type,
    decreases js.len(),
{
    if js.len() > 0 {
        lemma_built_joins_swap(js.drop_last(), from, server, simplify);
    }
}

/// A built query selects from the table of its last pine, and joins each table that came before
/// a join: `people | preferences` selects from preferences and joins people.
pub proof fn lemma_query_tables(input: Seq<char>, rep: Stage4RepModel, server: ServerModel)
    ensures
        stage5_query(input, rep, server) matches Ok(q) ==> {
            &&& q.from == (if rep.joins.len() == 0 {
                sourced_table(rep.from)
            } else {
                sourced_table(rep.joins.last().it.target_table)
            })
            &&& q.joins.len() == rep.joins.len()
            &&& forall|k: int|
                0 <= k < rep.joins.len() ==> (#[trigger] q.joins[k]).it.target_table
                    == sourced_table(rep.joins[k].it.source_table)
        },
{
    lemma_built_joins_swap(rep.joins, rep.from, server, rep.joins.len() == 0);
}

} // verus!

verus! {

/// Building a condition keeps what kind of condition it is: a null test stays the same null
/// test, a comparison stays a comparison with the same operator, and every source is kept.
pub proof fn lemma_build_condition_keeps_kind(c: Sourced<Stage4ConditionModel>, simplify: bool)
    ensures
        ({
            let r = build_condition(c, simplify);
            &&& r.source == c.source
            &&& (c.it matches ConditionHolder::Unary(u) && u.it is IsNull) <==> (r.it matches ConditionHolder::Unary(
                v,
            ) && v.it is IsNull)
            &&& (c.it matches ConditionHolder::Unary(u) && u.it is IsNotNull) <==> (r.it matches ConditionHolder::Unary(
                v,
            ) && v.it is IsNotNull)
            &&& c.it is Binary <==> r.it is Binary
            &&& c.it matches ConditionHolder::Unary(u) ==> (r.it matches ConditionHolder::Unary(v)
                && v.source == u.source)
            &&& c.it matches ConditionHolder::Binary(b) ==> (r.it matches ConditionHolder::Binary(d)
                && d.it.comparison == b.it.comparison && d.source == b.source
                && d.it.left.source == b.it.left.source && d.it.right.source == b.it.right.source)
        }),
{
}

} // verus!
