//! Stage 3 adds implicit information to pines.
//!
//! For example, in `users | w: id = 3 | s: id` the filter and the select pines also refer to
//! the previous table: `users`. Each pine ends up holding all the information it needs, so
//! later processing does not have to look back.
use crate::engine::syntax::stage2::{
    ConditionModel, SelectableModel, Stage2Condition, Stage2Order, Stage2Pine, Stage2PineModel,
    Stage2Rep, Stage2Selectable, Stage2Limit, LiteralModel,
};
use crate::engine::syntax::stage4::{
    Stage4ColumnInput, Stage4ColumnInputModel, Stage4ComputationInput, Stage4ComputationModel,
    Stage4Condition, Stage4ConditionModel, Stage4FunctionCall, Stage4FunctionCallModel,
    Stage4Join, Stage4JoinModel, Stage4Limit, Stage4Order, Stage4Selectable,
    Stage4SelectableModel,
};
use crate::engine::syntax::{
    ColumnInput, Computation, ComputationModel, FunctionCall, OptionalInput, TableInput,
    TableInputModel,
};
use crate::engine::{
    BinaryConditionHolder, ConditionHolder, JoinConditions, JoinConditionsModel, LimitHolder,
    OrderHolder, SelectableHolder, Source, Sourced, UnaryConditionHolder,
};
use vstd::prelude::*;

verus! {

// ---------------------------------------------------------------------------------------------
// Giving every column its table

/// An unqualified column belongs to the given table; a qualified one keeps its own.
pub open spec fn resolve_computation(c: ComputationModel, table: Sourced<TableInputModel>) -> Stage4ComputationModel
    decreases c,
{
    match c {
        ComputationModel::Column(col) => Stage4ComputationModel::Column(
            Sourced {
                it: Stage4ColumnInputModel {
                    table: match col.it.table {
                        OptionalInput::Implicit => table,
                        OptionalInput::Specified(t) => t,
                    },
                    column: col.it.column,
                },
                source: col.source,
            },
        ),
        ComputationModel::FunctionCall(f) => Stage4ComputationModel::FunctionCall(
            Sourced {
                it: Stage4FunctionCallModel {
                    fn_name: f.it.fn_name,
                    params: resolve_computations(f.it.params, table),
                },
                source: f.source,
            },
        ),
        ComputationModel::Value(v) => Stage4ComputationModel::Value(v),
    }
}

pub open spec fn resolve_computations(ps: Seq<Sourced<ComputationModel>>, table: Sourced<TableInputModel>) -> Seq<Sourced<Stage4ComputationModel>>
    decreases ps,
{
    if ps.len() == 0 {
        Seq::empty()
    } else {
        resolve_computations(ps.drop_last(), table).push(
            Sourced { it: resolve_computation(ps.last().it, table), source: ps.last().source },
        )
    }
}

pub open spec fn resolve_sourced(c: Sourced<ComputationModel>, table: Sourced<TableInputModel>) -> Sourced<Stage4ComputationModel> {
    Sourced { it: resolve_computation(c.it, table), source: c.source }
}

/// The left operand of a binary condition refers to `left` by default, every other operand to `right`.
pub open spec fn resolve_condition(
    c: Sourced<ConditionModel>,
    left: Sourced<TableInputModel>,
    right: Sourced<TableInputModel>,
) -> Sourced<Stage4ConditionModel> {
    Sourced {
        it: match c.it {
            ConditionHolder::Unary(u) => ConditionHolder::Unary(
                Sourced {
                    it: match u.it {
                        UnaryConditionHolder::IsNull(o) => UnaryConditionHolder::IsNull(
                            resolve_sourced(o, right),
                        ),
                        UnaryConditionHolder::IsNotNull(o) => UnaryConditionHolder::IsNotNull(
                            resolve_sourced(o, right),
                        ),
                    },
                    source: u.source,
                },
            ),
            ConditionHolder::Binary(b) => ConditionHolder::Binary(
                Sourced {
                    it: BinaryConditionHolder {
                        left: resolve_sourced(b.it.left, left),
                        comparison: b.it.comparison,
                        right: resolve_sourced(b.it.right, right),
                    },
                    source: b.source,
                },
            ),
        },
        source: c.source,
    }
}

pub open spec fn resolve_conditions(
    cs: Seq<Sourced<ConditionModel>>,
    left: Sourced<TableInputModel>,
    right: Sourced<TableInputModel>,
) -> Seq<Sourced<Stage4ConditionModel>> {
    cs.map_values(|c: Sourced<ConditionModel>| resolve_condition(c, left, right))
}

pub open spec fn resolve_selectable(s: Sourced<SelectableModel>, table: Sourced<TableInputModel>) -> Sourced<Stage4SelectableModel> {
    Sourced {
        it: match s.it {
            SelectableHolder::Condition(c) => SelectableHolder::Condition(
                resolve_condition(c, table, table),
            ),
            SelectableHolder::Computation(c) => SelectableHolder::Computation(
                resolve_sourced(c, table),
            ),
        },
        source: s.source,
    }
}

pub open spec fn resolve_selectables(ss: Seq<Sourced<SelectableModel>>, table: Sourced<TableInputModel>) -> Seq<Sourced<Stage4SelectableModel>> {
    ss.map_values(|s: Sourced<SelectableModel>| resolve_selectable(s, table))
}

pub open spec fn resolve_order(o: Sourced<OrderHolder<SelectableModel>>, table: Sourced<TableInputModel>) -> Sourced<OrderHolder<Stage4SelectableModel>> {
    Sourced {
        it: OrderHolder {
            selectable: resolve_selectable(o.it.selectable, table),
            direction: o.it.direction,
        },
        source: o.source,
    }
}

pub open spec fn resolve_orders(os: Seq<Sourced<OrderHolder<SelectableModel>>>, table: Sourced<TableInputModel>) -> Seq<Sourced<OrderHolder<Stage4SelectableModel>>> {
    os.map_values(|o: Sourced<OrderHolder<SelectableModel>>| resolve_order(o, table))
}

pub fn resolve_computation_exec<'a>(c: &Sourced<Computation<'a>>, table: Sourced<TableInput<'a>>) -> (r: Sourced<Stage4ComputationInput<'a>>)
    ensures
        r.deep_view() == resolve_sourced(c.deep_view(), table.deep_view()),
    decreases c,
{
    match &c.it {
        Computation::Column(col) => {
            let table = match col.it.table {
                OptionalInput::Implicit => table,
                OptionalInput::Specified(t) => t,
            };
            Sourced {
                it: Stage4ComputationInput::Column(
                    Sourced { it: Stage4ColumnInput { table, column: col.it.column }, source: col.source },
                ),
                source: c.source,
            }
        },
        Computation::Value(v) => Sourced {
            it: Stage4ComputationInput::Value(Sourced { it: v.it, source: v.source }),
            source: c.source,
        },
        Computation::FunctionCall(f) => {
            let ghost params_model = crate::engine::syntax::computations_model(f.it.params@);
            let mut params: Vec<Sourced<Stage4ComputationInput<'a>>> = Vec::new();
            let n = f.it.params.len();
            proof {
                crate::engine::syntax::lemma_computations_model_len(f.it.params@);
            }
            let mut k: usize = 0;
            while k < n
                invariant
                    c.it == Computation::FunctionCall(*f),
                    n == f.it.params@.len(),
                    k <= n,
                    params_model == crate::engine::syntax::computations_model(f.it.params@),
                    params_model.len() == n,
                    crate::engine::syntax::stage4::stage4_computations_model(params@)
                        == resolve_computations(params_model.take(k as int), table.deep_view()),
                decreases n - k,
            {
                proof {
                    assert(decreases_to!(c => c.it));
                    let ghost g = c.it->FunctionCall_0;
                    assert(g == *f);
                    assert(decreases_to!(c.it => g));
                    assert(decreases_to!(g => g.it));
                    assert(decreases_to!(g.it => g.it.params));
                    assert(decreases_to!(g.it.params => g.it.params@));
                    assert(decreases_to!(g.it.params@ => g.it.params@[k as int]));
                    assert(decreases_to!(c => f.it.params@[k as int]));
                }
                let resolved = resolve_computation_exec(&f.it.params[k], table);
                let ghost before = params@;
                params.push(resolved);
                proof {
                    crate::engine::syntax::stage4::lemma_stage4_computations_model_push(before, resolved);
                    crate::engine::syntax::lemma_computations_model_index(f.it.params@, k as int);
                    assert(params_model.take(k + 1).drop_last() =~= params_model.take(k as int));
                }
                k += 1;
            }
            proof {
                assert(params_model.take(n as int) =~= params_model);
            }
            Sourced {
                it: Stage4ComputationInput::FunctionCall(
                    Sourced {
                        it: Stage4FunctionCall { fn_name: f.it.fn_name, params },
                        source: f.source,
                    },
                ),
                source: c.source,
            }
        },
    }
}


pub fn resolve_condition_exec<'a>(
    c: &Sourced<Stage2Condition<'a>>,
    left: Sourced<TableInput<'a>>,
    right: Sourced<TableInput<'a>>,
) -> (r: Sourced<Stage4Condition<'a>>)
    ensures
        r.deep_view() == resolve_condition(c.deep_view(), left.deep_view(), right.deep_view()),
{
    let it = match &c.it {
        ConditionHolder::Unary(u) => {
            let inner = match &u.it {
                UnaryConditionHolder::IsNull(o) => UnaryConditionHolder::IsNull(
                    resolve_computation_exec(o, right),
                ),
                UnaryConditionHolder::IsNotNull(o) => UnaryConditionHolder::IsNotNull(
                    resolve_computation_exec(o, right),
                ),
            };
            ConditionHolder::Unary(Sourced { it: inner, source: u.source })
        },
        ConditionHolder::Binary(b) => ConditionHolder::Binary(
            Sourced {
                it: BinaryConditionHolder {
                    left: resolve_computation_exec(&b.it.left, left),
                    comparison: b.it.comparison,
                    right: resolve_computation_exec(&b.it.right, right),
                },
                source: b.source,
            },
        ),
    };
    Sourced { it, source: c.source }
}

pub fn resolve_conditions_exec<'a>(
    cs: &Vec<Sourced<Stage2Condition<'a>>>,
    left: Sourced<TableInput<'a>>,
    right: Sourced<TableInput<'a>>,
) -> (r: Vec<Sourced<Stage4Condition<'a>>>)
    ensures
        r.deep_view() == resolve_conditions(cs.deep_view(), left.deep_view(), right.deep_view()),
{
    let mut out: Vec<Sourced<Stage4Condition<'a>>> = Vec::new();
    let n = cs.len();
    let mut k: usize = 0;
    while k < n
        invariant
            n == cs@.len(),
            k <= n,
            out.deep_view() =~= resolve_conditions(cs.deep_view(), left.deep_view(), right.deep_view()).take(k as int),
        decreases n - k,
    {
        let c = resolve_condition_exec(&cs[k], left, right);
        let ghost before = out.deep_view();
        out.push(c);
        proof {
            let all = resolve_conditions(cs.deep_view(), left.deep_view(), right.deep_view());
            assert(out.deep_view() =~= before.push(c.deep_view()));
            assert(all.take(k + 1) =~= all.take(k as int).push(all[k as int]));
        }
        k += 1;
    }
    out
}

pub fn resolve_selectable_exec<'a>(s: &Sourced<Stage2Selectable<'a>>, table: Sourced<TableInput<'a>>) -> (r: Sourced<Stage4Selectable<'a>>)
    ensures
        r.deep_view() == resolve_selectable(s.deep_view(), table.deep_view()),
{
    let it = match &s.it {
        SelectableHolder::Condition(c) => SelectableHolder::Condition(
            resolve_condition_exec(c, table, table),
        ),
        SelectableHolder::Computation(c) => SelectableHolder::Computation(
            resolve_computation_exec(c, table),
        ),
    };
    Sourced { it, source: s.source }
}

pub fn resolve_selectables_exec<'a>(ss: &Vec<Sourced<Stage2Selectable<'a>>>, table: Sourced<TableInput<'a>>) -> (r: Vec<Sourced<Stage4Selectable<'a>>>)
    ensures
        r.deep_view() == resolve_selectables(ss.deep_view(), table.deep_view()),
{
    let mut out: Vec<Sourced<Stage4Selectable<'a>>> = Vec::new();
    let n = ss.len();
    let mut k: usize = 0;
    while k < n
        invariant
            n == ss@.len(),
            k <= n,
            out.deep_view() =~= resolve_selectables(ss.deep_view(), table.deep_view()).take(k as int),
        decreases n - k,
    {
        let s = resolve_selectable_exec(&ss[k], table);
        let ghost before = out.deep_view();
        out.push(s);
        proof {
            let all = resolve_selectables(ss.deep_view(), table.deep_view());
            assert(out.deep_view() =~= before.push(s.deep_view()));
            assert(all.take(k + 1) =~= all.take(k as int).push(all[k as int]));
        }
        k += 1;
    }
    out
}

pub fn resolve_orders_exec<'a>(os: &Vec<Sourced<Stage2Order<'a>>>, table: Sourced<TableInput<'a>>) -> (r: Vec<Sourced<Stage4Order<'a>>>)
    ensures
        r.deep_view() == resolve_orders(os.deep_view(), table.deep_view()),
{
    let mut out: Vec<Sourced<Stage4Order<'a>>> = Vec::new();
    let n = os.len();
    let mut k: usize = 0;
    while k < n
        invariant
            n == os@.len(),
            k <= n,
            out.deep_view() =~= resolve_orders(os.deep_view(), table.deep_view()).take(k as int),
        decreases n - k,
    {
        let o = &os[k];
        let resolved = Sourced {
            it: OrderHolder {
                selectable: resolve_selectable_exec(&o.it.selectable, table),
                direction: o.it.direction,
            },
            source: o.source,
        };
        let ghost before = out.deep_view();
        out.push(resolved);
        proof {
            let all = resolve_orders(os.deep_view(), table.deep_view());
            assert(out.deep_view() =~= before.push(resolved.deep_view()));
            assert(all.take(k + 1) =~= all.take(k as int).push(all[k as int]));
        }
        k += 1;
    }
    out
}


// ---------------------------------------------------------------------------------------------
// Pines

#[derive(Debug)]
pub enum Stage3Pine<'a> {
    From { table: Sourced<TableInput<'a>>, conditions: Vec<Sourced<Stage4Condition<'a>>> },
    Select(Vec<Sourced<Stage4Selectable<'a>>>),
    Limit(Sourced<Stage4Limit<'a>>),
    Order(Vec<Sourced<Stage4Order<'a>>>),
    GroupBy(Vec<Sourced<Stage4Selectable<'a>>>),
    Filter(Vec<Sourced<Stage4Condition<'a>>>),
    Join(Sourced<Stage4Join<'a>>),
}

pub enum Stage3PineModel {
    From { table: Sourced<TableInputModel>, conditions: Seq<Sourced<Stage4ConditionModel>> },
    Select(Seq<Sourced<Stage4SelectableModel>>),
    Limit(Sourced<LimitHolder<LiteralModel>>),
    Order(Seq<Sourced<OrderHolder<Stage4SelectableModel>>>),
    GroupBy(Seq<Sourced<Stage4SelectableModel>>),
    Filter(Seq<Sourced<Stage4ConditionModel>>),
    Join(Sourced<Stage4JoinModel>),
}

impl DeepView for Stage3Pine<'_> {
    type V = Stage3PineModel;

    open spec fn deep_view(&self) -> Stage3PineModel {
        match self {
            Stage3Pine::From { table, conditions } => Stage3PineModel::From {
                table: table.deep_view(),
                conditions: conditions.deep_view(),
            },
            Stage3Pine::Select(s) => Stage3PineModel::Select(s.deep_view()),
            Stage3Pine::Limit(l) => Stage3PineModel::Limit(l.deep_view()),
            Stage3Pine::Order(o) => Stage3PineModel::Order(o.deep_view()),
            Stage3Pine::GroupBy(g) => Stage3PineModel::GroupBy(g.deep_view()),
            Stage3Pine::Filter(f) => Stage3PineModel::Filter(f.deep_view()),
            Stage3Pine::Join(j) => Stage3PineModel::Join(j.deep_view()),
        }
    }
}

/// The stage 3 pines one stage 2 pine becomes, and the table the pines after it refer to.
pub open spec fn stage3_pine(p: Sourced<Stage2PineModel>, previous: Sourced<TableInputModel>) -> (
    Seq<Sourced<Stage3PineModel>>,
    Sourced<TableInputModel>,
) {
    let at = |it: Stage3PineModel| Sourced { it, source: p.source };
    match p.it {
        Stage2PineModel::Base { table, conditions } => (
            seq![at(Stage3PineModel::From { table, conditions: resolve_conditions(conditions, table, table) })],
            table,
        ),
        Stage2PineModel::Select(ss) => (
            seq![at(Stage3PineModel::Select(resolve_selectables(ss, previous)))],
            previous,
        ),
        Stage2PineModel::Limit(l) => (seq![at(Stage3PineModel::Limit(l))], previous),
        Stage2PineModel::Order(os) => (
            seq![at(Stage3PineModel::Order(resolve_orders(os, previous)))],
            previous,
        ),
        Stage2PineModel::GroupBy(ss) => (
            seq![at(Stage3PineModel::GroupBy(resolve_selectables(ss, previous)))],
            previous,
        ),
        Stage2PineModel::Filter(cs) => (
            seq![at(Stage3PineModel::Filter(resolve_conditions(cs, previous, previous)))],
            previous,
        ),
        Stage2PineModel::ExplicitJoin(j) => {
            let target = j.it.target_table;
            let join = Stage4JoinModel {
                join_type: j.it.join_type,
                source_table: previous,
                target_table: target,
                conditions: match j.it.conditions {
                    JoinConditionsModel::Auto => JoinConditionsModel::Auto,
                    JoinConditionsModel::Explicit(cs) => JoinConditionsModel::Explicit(
                        resolve_conditions(cs, previous, target),
                    ),
                },
            };
            (seq![at(Stage3PineModel::Join(Sourced { it: join, source: j.source }))], target)
        },
        Stage2PineModel::ExplicitAutoJoin(j) => {
            let join = Stage4JoinModel {
                join_type: j.it.join_type,
                source_table: previous,
                target_table: j.it.target_table,
                conditions: JoinConditionsModel::Auto,
            };
            (
                seq![at(Stage3PineModel::Join(Sourced { it: join, source: j.source }))],
                j.it.target_table,
            )
        },
        Stage2PineModel::CompoundJoin(j) => {
            let target = j.it.target_table;
            let join = Stage4JoinModel {
                join_type: j.it.join_type,
                source_table: previous,
                target_table: target,
                conditions: JoinConditionsModel::Auto,
            };
            let joined = seq![at(Stage3PineModel::Join(Sourced { it: join, source: j.source }))];
            if j.it.where_conditions.len() > 0 {
                (
                    joined.push(
                        at(
                            Stage3PineModel::Filter(
                                resolve_conditions(j.it.where_conditions, target, target),
                            ),
                        ),
                    ),
                    target,
                )
            } else {
                (joined, target)
            }
        },
    }
}

pub open spec fn stage3_pines(ps: Seq<Sourced<Stage2PineModel>>, previous: Sourced<TableInputModel>) -> Seq<
    Sourced<Stage3PineModel>,
>
    decreases ps.len(),
{
    if ps.len() == 0 {
        Seq::empty()
    } else {
        let (out, next) = stage3_pine(ps[0], previous);
        out + stage3_pines(ps.drop_first(), next)
    }
}

/// Whether a chain of stage 2 pines starts with a base pine, and has no other.
pub open spec fn stage2_well_formed(ps: Seq<Sourced<Stage2PineModel>>) -> bool {
    &&& ps.len() > 0
    &&& ps[0].it is Base
    &&& forall|k: int| 0 < k < ps.len() ==> !(#[trigger] ps[k].it is Base)
}

pub open spec fn base_table(ps: Seq<Sourced<Stage2PineModel>>) -> Sourced<TableInputModel> {
    ps[0].it->Base_table
}

/// What stage 3 makes of a chain of stage 2 pines.
pub open spec fn stage3_of(ps: Seq<Sourced<Stage2PineModel>>) -> Seq<Sourced<Stage3PineModel>> {
    stage3_pines(ps, base_table(ps))
}

#[derive(Debug)]
pub struct Stage3Rep<'a> {
    pub input: &'a str,
    pub pines: Vec<Sourced<Stage3Pine<'a>>>,
}

pub open spec fn stage3_well_formed(ps: Seq<Sourced<Stage3PineModel>>) -> bool {
    &&& ps.len() > 0
    &&& ps[0].it is From
    &&& forall|k: int| 0 < k < ps.len() ==> !(#[trigger] ps[k].it is From)
}

impl<'a> Stage2Rep<'a> {
    pub open spec fn well_formed(&self) -> bool {
        stage2_well_formed(self.pines.deep_view())
    }
}

impl<'a> Stage3Rep<'a> {
    pub open spec fn well_formed(&self) -> bool {
        stage3_well_formed(self.pines.deep_view())
    }

    /// Gives every pine the implicit data of the pines before it.
    pub fn from(stage2: Stage2Rep<'a>) -> (r: Stage3Rep<'a>)
        requires
            stage2.well_formed(),
        ensures
            r.input == stage2.input,
            r.pines.deep_view() == stage3_of(stage2.pines.deep_view()),
            r.well_formed(),
    {
        let ghost all = stage2.pines.deep_view();
        let n = stage2.pines.len();
        let mut previous = match &stage2.pines[0].it {
            Stage2Pine::Base { table, .. } => *table,
            _ => vstd::pervasive::unreached(),
        };
        let mut out: Vec<Sourced<Stage3Pine<'a>>> = Vec::new();
        let mut k: usize = 0;
        assert(all.skip(0) =~= all);
        while k < n
            invariant
                n == stage2.pines@.len(),
                all == stage2.pines.deep_view(),
                stage2_well_formed(all),
                k <= n,
                out.deep_view() + stage3_pines(all.skip(k as int), previous.deep_view())
                    == stage3_of(all),
                k == 0 ==> previous.deep_view() == base_table(all),
                k > 0 ==> out.deep_view().len() > 0 && out.deep_view()[0].it is From,
                forall|m: int| 0 < m < out.deep_view().len() ==> !(#[trigger] out.deep_view()[m].it is From),
            decreases n - k,
        {
            let p = &stage2.pines[k];
            let ghost before = out.deep_view();
            let ghost previous_before = previous.deep_view();
            let ghost pv = all[k as int];
            assert(pv == p.deep_view());
            let source = p.source;
            match &p.it {
                Stage2Pine::Base { table, conditions } => {
                    let conditions = resolve_conditions_exec(conditions, *table, *table);
                    out.push(Sourced { it: Stage3Pine::From { table: *table, conditions }, source });
                    previous = *table;
                },
                Stage2Pine::Select(ss) => {
                    out.push(Sourced { it: Stage3Pine::Select(resolve_selectables_exec(ss, previous)), source });
                },
                Stage2Pine::Limit(l) => {
                    out.push(Sourced { it: Stage3Pine::Limit(*l), source });
                },
                Stage2Pine::Order(os) => {
                    out.push(Sourced { it: Stage3Pine::Order(resolve_orders_exec(os, previous)), source });
                },
                Stage2Pine::GroupBy(ss) => {
                    out.push(Sourced { it: Stage3Pine::GroupBy(resolve_selectables_exec(ss, previous)), source });
                },
                Stage2Pine::Filter(cs) => {
                    out.push(Sourced { it: Stage3Pine::Filter(resolve_conditions_exec(cs, previous, previous)), source });
                },
                Stage2Pine::ExplicitJoin(j) => {
                    let target = j.it.target_table;
                    let conditions = match &j.it.conditions {
                        JoinConditions::Auto => JoinConditions::Auto,
                        JoinConditions::Explicit(cs) => JoinConditions::Explicit(
                            resolve_conditions_exec(cs, previous, target),
                        ),
                    };
                    let join = Stage4Join {
                        join_type: j.it.join_type,
                        source_table: previous,
                        target_table: target,
                        conditions,
                    };
                    out.push(Sourced { it: Stage3Pine::Join(Sourced { it: join, source: j.source }), source });
                    previous = target;
                },
                Stage2Pine::ExplicitAutoJoin(j) => {
                    let join = Stage4Join {
                        join_type: j.it.join_type,
                        source_table: previous,
                        target_table: j.it.target_table,
                        conditions: JoinConditions::Auto,
                    };
                    out.push(Sourced { it: Stage3Pine::Join(Sourced { it: join, source: j.source }), source });
                    previous = j.it.target_table;
                },
                Stage2Pine::CompoundJoin(j) => {
                    let target = j.it.target_table;
                    let join = Stage4Join {
                        join_type: j.it.join_type,
                        source_table: previous,
                        target_table: target,
                        conditions: JoinConditions::Auto,
                    };
                    out.push(Sourced { it: Stage3Pine::Join(Sourced { it: join, source: j.source }), source });
                    if j.it.where_conditions.len() > 0 {
                        let filters = resolve_conditions_exec(&j.it.where_conditions, target, target);
                        out.push(Sourced { it: Stage3Pine::Filter(filters), source });
                    }
                    previous = target;
                },
            }
            proof {
                let (produced, next) = stage3_pine(pv, previous_before);
                assert(out.deep_view() =~= before + produced);
                assert(previous.deep_view() == next);
                assert(all.skip(k as int)[0] == pv);
                assert(all.skip(k as int).drop_first() =~= all.skip(k + 1));
                let rest = stage3_pines(all.skip(k + 1), next);
                assert(before + (produced + rest) =~= (before + produced) + rest);
            }
            k += 1;
        }
        proof {
            assert(all.skip(n as int) =~= Seq::empty());
            assert(out.deep_view() + Seq::empty() =~= out.deep_view());
        }
        Stage3Rep { input: stage2.input, pines: out }
    }
}


pub proof fn lemma_pines_are_not_base(s: Seq<char>, i: int)
    ensures
        crate::engine::syntax::stage2::p_pines(s, i) matches Ok((ps, _)) ==> forall|k: int| 0 <= k < ps.len() ==> !(#[trigger] ps[k].it is Base),
    decreases s.len() - i,
{
    let j = crate::engine::syntax::stage2::skip_ws(s, i);
    if 0 <= i <= j < s.len() && s[j] == '|' {
        let k = crate::engine::syntax::stage2::skip_ws(s, j + 1);
        if let Some((pine, e)) = crate::engine::syntax::stage2::p_pine(s, k) {
            if i < e <= s.len() {
                lemma_pines_are_not_base(s, e);
                if let Ok((rest, _)) = crate::engine::syntax::stage2::p_pines(s, e) {
                    let all = seq![pine] + rest;
                    assert forall|m: int| 0 <= m < all.len() implies !(#[trigger] all[m].it is Base) by {
                        if m > 0 {
                            assert(all[m] == rest[m - 1]);
                        }
                    }
                }
            }
        }
    }
}

/// A chain of pines read from text always starts with its only base pine.
pub proof fn lemma_parsed_pines_well_formed(s: Seq<char>)
    ensures
        crate::engine::syntax::stage2::p_root(s) matches Ok(ps) ==> stage2_well_formed(ps),
{
    let start = crate::engine::syntax::stage2::skip_ws(s, 0);
    if let Some((base, e1)) = crate::engine::syntax::stage2::p_base(s, start) {
        lemma_pines_are_not_base(s, e1);
        if let Ok((pines, e2)) = crate::engine::syntax::stage2::p_pines(s, e1) {
            let all = seq![base] + pines;
            assert forall|m: int| 0 < m < all.len() implies !(#[trigger] all[m].it is Base) by {
                assert(all[m] == pines[m - 1]);
            }
        }
    }
}

} // verus!
