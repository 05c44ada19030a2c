//! Stage 4 representation is a hierarchical structure representing what query the user
//! constructed. It has all data present in the input, but no data that relates to the actual
//! state of the database (how to do joins, whether a table exists).
use crate::engine::syntax::stage2::LiteralModel;
use crate::engine::syntax::stage3::{Stage3Pine, Stage3PineModel, Stage3Rep};
use crate::engine::syntax::{SqlIdentifierInput, TableInput, TableInputModel};
use crate::engine::{
    BinaryConditionHolder, ConditionHolder, JoinConditions, JoinConditionsModel, JoinType,
    LimitHolder, LiteralValueHolder, OrderHolder, SelectableHolder, Source, Sourced,
    UnaryConditionHolder,
};
use vstd::prelude::*;

verus! {

pub type Stage4LiteralValue<'a> = LiteralValueHolder<&'a str>;

pub type Stage4Condition<'a> = ConditionHolder<Stage4ComputationInput<'a>>;

pub type Stage4Selectable<'a> = SelectableHolder<Stage4Condition<'a>, Stage4ComputationInput<'a>>;

pub type Stage4BinaryCondition<'a> = BinaryConditionHolder<Stage4ComputationInput<'a>>;

pub type Stage4UnaryCondition<'a> = UnaryConditionHolder<Stage4ComputationInput<'a>>;

pub type Stage4Order<'a> = OrderHolder<Stage4Selectable<'a>>;

pub type Stage4Limit<'a> = LimitHolder<Stage4LiteralValue<'a>>;

pub type Stage4JoinConditions<'a> = JoinConditions<Stage4Condition<'a>>;

/// A column whose table is always known: given in the input, or implied by the pines before it.
#[derive(Debug, Clone, Copy)]
pub struct Stage4ColumnInput<'a> {
    pub table: Sourced<TableInput<'a>>,
    pub column: Sourced<SqlIdentifierInput<'a>>,
}

pub struct Stage4ColumnInputModel {
    pub table: Sourced<TableInputModel>,
    pub column: Sourced<Seq<char>>,
}

impl DeepView for Stage4ColumnInput<'_> {
    type V = Stage4ColumnInputModel;

    open spec fn deep_view(&self) -> Stage4ColumnInputModel {
        Stage4ColumnInputModel { table: self.table.deep_view(), column: self.column.deep_view() }
    }
}

#[derive(Debug)]
pub enum Stage4ComputationInput<'a> {
    Column(Sourced<Stage4ColumnInput<'a>>),
    FunctionCall(Sourced<Stage4FunctionCall<'a>>),
    Value(Sourced<Stage4LiteralValue<'a>>),
}

#[derive(Debug)]
pub struct Stage4FunctionCall<'a> {
    pub fn_name: Sourced<SqlIdentifierInput<'a>>,
    pub params: Vec<Sourced<Stage4ComputationInput<'a>>>,
}

pub enum Stage4ComputationModel {
    Column(Sourced<Stage4ColumnInputModel>),
    FunctionCall(Sourced<Stage4FunctionCallModel>),
    Value(Sourced<LiteralModel>),
}

pub struct Stage4FunctionCallModel {
    pub fn_name: Sourced<Seq<char>>,
    pub params: Seq<Sourced<Stage4ComputationModel>>,
}

pub open spec fn stage4_computation_model(c: Stage4ComputationInput) -> Stage4ComputationModel
    decreases c,
{
    match c {
        Stage4ComputationInput::Column(col) => Stage4ComputationModel::Column(col.deep_view()),
        Stage4ComputationInput::Value(v) => Stage4ComputationModel::Value(v.deep_view()),
        Stage4ComputationInput::FunctionCall(f) => Stage4ComputationModel::FunctionCall(
            Sourced {
                it: Stage4FunctionCallModel {
                    fn_name: f.it.fn_name.deep_view(),
                    params: stage4_computations_model(f.it.params@),
                },
                source: f.source,
            },
        ),
    }
}

pub open spec fn stage4_computations_model(ps: Seq<Sourced<Stage4ComputationInput>>) -> Seq<
    Sourced<Stage4ComputationModel>,
>
    decreases ps,
{
    if ps.len() == 0 {
        Seq::empty()
    } else {
        stage4_computations_model(ps.drop_last()).push(
            Sourced { it: stage4_computation_model(ps.last().it), source: ps.last().source },
        )
    }
}

impl DeepView for Stage4ComputationInput<'_> {
    type V = Stage4ComputationModel;

    open spec fn deep_view(&self) -> Stage4ComputationModel {
        stage4_computation_model(*self)
    }
}

impl DeepView for Stage4FunctionCall<'_> {
    type V = Stage4FunctionCallModel;

    open spec fn deep_view(&self) -> Stage4FunctionCallModel {
        Stage4FunctionCallModel {
            fn_name: self.fn_name.deep_view(),
            params: stage4_computations_model(self.params@),
        }
    }
}

pub proof fn lemma_stage4_computations_model_len(ps: Seq<Sourced<Stage4ComputationInput>>)
    ensures
        stage4_computations_model(ps).len() == ps.len(),
    decreases ps.len(),
{
    if ps.len() > 0 {
        lemma_stage4_computations_model_len(ps.drop_last());
    }
}

/// The model of a sequence of computations is the model of each of them.
pub proof fn lemma_stage4_computations_model_index(ps: Seq<Sourced<Stage4ComputationInput>>, k: int)
    requires
        0 <= k < ps.len(),
    ensures
        stage4_computations_model(ps)[k] == (Sourced {
            it: stage4_computation_model(ps[k].it),
            source: ps[k].source,
        }),
    decreases ps.len(),
{
    lemma_stage4_computations_model_len(ps.drop_last());
    if k < ps.len() - 1 {
        lemma_stage4_computations_model_index(ps.drop_last(), k);
    }
}

pub proof fn lemma_stage4_computations_model_push(
    ps: Seq<Sourced<Stage4ComputationInput>>,
    x: Sourced<Stage4ComputationInput>,
)
    ensures
        stage4_computations_model(ps.push(x)) == stage4_computations_model(ps).push(
            Sourced { it: stage4_computation_model(x.it), source: x.source },
        ),
{
    assert(ps.push(x).drop_last() =~= ps);
}

pub type Stage4ConditionModel = ConditionHolder<Stage4ComputationModel>;

pub type Stage4SelectableModel = SelectableHolder<Stage4ConditionModel, Stage4ComputationModel>;

#[derive(Debug)]
pub struct Stage4Join<'a> {
    pub join_type: Sourced<JoinType>,
    /// The table the pines before the join worked with.
    pub source_table: Sourced<TableInput<'a>>,
    /// The table to join to.
    pub target_table: Sourced<TableInput<'a>>,
    pub conditions: Stage4JoinConditions<'a>,
}

pub struct Stage4JoinModel {
    pub join_type: Sourced<JoinType>,
    pub source_table: Sourced<TableInputModel>,
    pub target_table: Sourced<TableInputModel>,
    pub conditions: JoinConditionsModel<Stage4ConditionModel>,
}

impl DeepView for Stage4Join<'_> {
    type V = Stage4JoinModel;

    open spec fn deep_view(&self) -> Stage4JoinModel {
        Stage4JoinModel {
            join_type: self.join_type,
            source_table: self.source_table.deep_view(),
            target_table: self.target_table.deep_view(),
            conditions: self.conditions.deep_view(),
        }
    }
}


// ---------------------------------------------------------------------------------------------
// Copies

pub fn copy_computation<'a>(c: &Sourced<Stage4ComputationInput<'a>>) -> (r: Sourced<Stage4ComputationInput<'a>>)
    ensures
        r.deep_view() == c.deep_view(),
    decreases c,
{
    let it = match &c.it {
        Stage4ComputationInput::Column(col) => Stage4ComputationInput::Column(*col),
        Stage4ComputationInput::Value(v) => Stage4ComputationInput::Value(*v),
        Stage4ComputationInput::FunctionCall(f) => {
            let n = f.it.params.len();
            let mut params: Vec<Sourced<Stage4ComputationInput<'a>>> = Vec::new();
            let mut k: usize = 0;
            while k < n
                invariant
                    c.it == Stage4ComputationInput::FunctionCall(*f),
                    n == f.it.params@.len(),
                    k <= n,
                    stage4_computations_model(params@) == stage4_computations_model(f.it.params@.take(k as int)),
                decreases n - k,
            {
                proof {
                    let g = c.it->FunctionCall_0;
                    assert(decreases_to!(c => c.it));
                    assert(decreases_to!(c.it => g));
                    assert(decreases_to!(g => g.it));
                    assert(decreases_to!(g.it => g.it.params));
                    assert(decreases_to!(g.it.params => g.it.params@));
                    assert(decreases_to!(g.it.params@ => g.it.params@[k as int]));
                }
                let copy = copy_computation(&f.it.params[k]);
                let ghost before = params@;
                params.push(copy);
                proof {
                    lemma_stage4_computations_model_push(before, copy);
                    lemma_stage4_computations_model_push(f.it.params@.take(k as int), f.it.params@[k as int]);
                    assert(f.it.params@.take(k + 1) =~= f.it.params@.take(k as int).push(f.it.params@[k as int]));
                }
                k += 1;
            }
            proof {
                assert(f.it.params@.take(n as int) =~= f.it.params@);
            }
            Stage4ComputationInput::FunctionCall(
                Sourced { it: Stage4FunctionCall { fn_name: f.it.fn_name, params }, source: f.source },
            )
        },
    };
    Sourced { it, source: c.source }
}

pub fn copy_condition<'a>(c: &Sourced<Stage4Condition<'a>>) -> (r: Sourced<Stage4Condition<'a>>)
    ensures
        r.deep_view() == c.deep_view(),
{
    let it = match &c.it {
        ConditionHolder::Unary(u) => {
            let inner = match &u.it {
                UnaryConditionHolder::IsNull(o) => UnaryConditionHolder::IsNull(copy_computation(o)),
                UnaryConditionHolder::IsNotNull(o) => UnaryConditionHolder::IsNotNull(
                    copy_computation(o),
                ),
            };
            ConditionHolder::Unary(Sourced { it: inner, source: u.source })
        },
        ConditionHolder::Binary(b) => ConditionHolder::Binary(
            Sourced {
                it: BinaryConditionHolder {
                    left: copy_computation(&b.it.left),
                    comparison: b.it.comparison,
                    right: copy_computation(&b.it.right),
                },
                source: b.source,
            },
        ),
    };
    Sourced { it, source: c.source }
}

pub fn copy_selectable<'a>(s: &Sourced<Stage4Selectable<'a>>) -> (r: Sourced<Stage4Selectable<'a>>)
    ensures
        r.deep_view() == s.deep_view(),
{
    let it = match &s.it {
        SelectableHolder::Condition(c) => SelectableHolder::Condition(copy_condition(c)),
        SelectableHolder::Computation(c) => SelectableHolder::Computation(copy_computation(c)),
    };
    Sourced { it, source: s.source }
}

pub fn copy_selectables<'a>(ss: &Vec<Sourced<Stage4Selectable<'a>>>) -> (r: Vec<Sourced<Stage4Selectable<'a>>>)
    ensures
        r.deep_view() == ss.deep_view(),
{
    let mut out: Vec<Sourced<Stage4Selectable<'a>>> = Vec::new();
    let n = ss.len();
    let mut k: usize = 0;
    while k < n
        invariant
            n == ss@.len(),
            k <= n,
            out.deep_view() =~= ss.deep_view().take(k as int),
        decreases n - k,
    {
        let copy = copy_selectable(&ss[k]);
        let ghost before = out.deep_view();
        out.push(copy);
        proof {
            assert(out.deep_view() =~= before.push(copy.deep_view()));
            assert(ss.deep_view().take(k + 1) =~= ss.deep_view().take(k as int).push(ss.deep_view()[k as int]));
        }
        k += 1;
    }
    proof {
        assert(ss.deep_view().take(n as int) =~= ss.deep_view());
    }
    out
}

// ---------------------------------------------------------------------------------------------
// Gathering the pines

pub type Stage4OrderModel = OrderHolder<Stage4SelectableModel>;

/// Everything the pines say about the query, gathered in one place.
#[derive(Debug)]
pub struct Stage4Rep<'a> {
    pub input: &'a str,
    pub from: Sourced<TableInput<'a>>,
    pub filters: Vec<Sourced<Stage4Condition<'a>>>,
    pub joins: Vec<Sourced<Stage4Join<'a>>>,
    pub selected_columns: Vec<Sourced<Stage4Selectable<'a>>>,
    pub orders: Vec<Sourced<Stage4Order<'a>>>,
    pub group_by: Vec<Sourced<Stage4Selectable<'a>>>,
    pub limit: Sourced<Stage4Limit<'a>>,
}

pub struct Stage4RepModel {
    pub from: Sourced<TableInputModel>,
    pub filters: Seq<Sourced<Stage4ConditionModel>>,
    pub joins: Seq<Sourced<Stage4JoinModel>>,
    pub selected_columns: Seq<Sourced<Stage4SelectableModel>>,
    pub orders: Seq<Sourced<Stage4OrderModel>>,
    pub group_by: Seq<Sourced<Stage4SelectableModel>>,
    pub limit: Sourced<LimitHolder<LiteralModel>>,
}

impl DeepView for Stage4Rep<'_> {
    type V = Stage4RepModel;

    open spec fn deep_view(&self) -> Stage4RepModel {
        Stage4RepModel {
            from: self.from.deep_view(),
            filters: self.filters.deep_view(),
            joins: self.joins.deep_view(),
            selected_columns: self.selected_columns.deep_view(),
            orders: self.orders.deep_view(),
            group_by: self.group_by.deep_view(),
            limit: self.limit.deep_view(),
        }
    }
}

/// A `*` selection of the given table, which nobody wrote down.
pub open spec fn implicit_wildcard(table: Sourced<TableInputModel>) -> Sourced<Stage4SelectableModel> {
    Sourced {
        it: SelectableHolder::Computation(
            Sourced {
                it: Stage4ComputationModel::Column(
                    Sourced {
                        it: Stage4ColumnInputModel {
                            table,
                            column: Sourced { it: "*"@, source: Source::Implicit },
                        },
                        source: Source::Implicit,
                    },
                ),
                source: Source::Implicit,
            },
        ),
        source: Source::Implicit,
    }
}

/// Whether a selection is the `*` column of the given table.
pub open spec fn is_wildcard_of(s: Sourced<Stage4SelectableModel>, table: Sourced<TableInputModel>) -> bool {
    &&& s.it matches SelectableHolder::Computation(c)
    &&& c.it matches Stage4ComputationModel::Column(col)
    &&& col.it.table == table
    &&& col.it.column.it == "*"@
}

/// The selections, without the `*` column of the given table.
pub open spec fn purge_wildcards(ss: Seq<Sourced<Stage4SelectableModel>>, table: Sourced<TableInputModel>) -> Seq<
    Sourced<Stage4SelectableModel>,
>
    decreases ss.len(),
{
    if ss.len() == 0 {
        Seq::empty()
    } else {
        let kept = purge_wildcards(ss.drop_last(), table);
        if is_wildcard_of(ss.last(), table) {
            kept
        } else {
            kept.push(ss.last())
        }
    }
}

/// What has been gathered after reading some of the pines.
pub struct Stage4State {
    pub last_table: Sourced<TableInputModel>,
    pub filters: Seq<Sourced<Stage4ConditionModel>>,
    pub joins: Seq<Sourced<Stage4JoinModel>>,
    pub selected_columns: Seq<Sourced<Stage4SelectableModel>>,
    pub orders: Seq<Sourced<Stage4OrderModel>>,
    pub group_by: Seq<Sourced<Stage4SelectableModel>>,
    pub limit: Sourced<LimitHolder<LiteralModel>>,
}

/// What one more pine adds.
///
/// - a select drops the implicit `*` of the last table, then adds its selections;
/// - a group adds its selections to the groups and to the selections, with an implicit `*` of the
///   last table when nothing was selected before;
/// - a join makes its target the last table, and is recorded;
/// - a limit replaces the previous one; filters and orders are appended.
pub open spec fn stage4_step(st: Stage4State, p: Stage3PineModel) -> Stage4State {
    match p {
        Stage3PineModel::From { table, conditions } => Stage4State {
            last_table: table,
            filters: st.filters + conditions,
            ..st
        },
        Stage3PineModel::Select(ss) => Stage4State {
            selected_columns: purge_wildcards(st.selected_columns, st.last_table) + ss,
            ..st
        },
        Stage3PineModel::Limit(l) => Stage4State { limit: l, ..st },
        Stage3PineModel::Order(os) => Stage4State { orders: st.orders + os, ..st },
        Stage3PineModel::GroupBy(ss) => Stage4State {
            selected_columns: if st.selected_columns.len() == 0 {
                ss.push(implicit_wildcard(st.last_table))
            } else {
                st.selected_columns + ss
            },
            group_by: st.group_by + ss,
            ..st
        },
        Stage3PineModel::Filter(cs) => Stage4State { filters: st.filters + cs, ..st },
        Stage3PineModel::Join(j) => Stage4State {
            last_table: j.it.target_table,
            joins: st.joins.push(j),
            ..st
        },
    }
}

pub open spec fn stage4_fold(ps: Seq<Sourced<Stage3PineModel>>, st: Stage4State) -> Stage4State
    decreases ps.len(),
{
    if ps.len() == 0 {
        st
    } else {
        stage4_step(stage4_fold(ps.drop_last(), st), ps.last().it)
    }
}

pub open spec fn stage4_start(table: Sourced<TableInputModel>) -> Stage4State {
    Stage4State {
        last_table: table,
        filters: Seq::empty(),
        joins: Seq::empty(),
        selected_columns: Seq::empty(),
        orders: Seq::empty(),
        group_by: Seq::empty(),
        limit: Sourced { it: LimitHolder::Implicit(), source: Source::Implicit },
    }
}

/// What stage 4 gathers from a chain of stage 3 pines that starts with a from pine.
pub open spec fn stage4_of(ps: Seq<Sourced<Stage3PineModel>>) -> Stage4RepModel {
    let st = stage4_fold(ps, stage4_start(ps[0].it->From_table));
    Stage4RepModel {
        from: ps[0].it->From_table,
        filters: st.filters,
        joins: st.joins,
        selected_columns: st.selected_columns,
        orders: st.orders,
        group_by: st.group_by,
        limit: st.limit,
    }
}


/// Moves everything from `b` to the end of `a`.
pub fn append_all<T: DeepView>(a: &mut Vec<T>, b: Vec<T>)
    ensures
        final(a).deep_view() == old(a).deep_view() + b.deep_view(),
{
    let ghost a_before = a.deep_view();
    let ghost b_view = b.deep_view();
    let mut b = b;
    a.append(&mut b);
    assert(a.deep_view() =~= a_before + b_view);
}

pub fn implicit_wildcard_select<'a>(table: Sourced<TableInput<'a>>) -> (r: Sourced<Stage4Selectable<'a>>)
    ensures
        r.deep_view() == implicit_wildcard(table.deep_view()),
{
    Sourced::implicit(
        SelectableHolder::Computation(
            Sourced::implicit(
                Stage4ComputationInput::Column(
                    Sourced::implicit(
                        Stage4ColumnInput {
                            table,
                            column: Sourced::implicit(SqlIdentifierInput { name: "*" }),
                        },
                    ),
                ),
            ),
        ),
    )
}

pub fn is_wildcard_of_exec(s: &Sourced<Stage4Selectable>, table: &Sourced<TableInput>) -> (r: bool)
    ensures
        r == is_wildcard_of(s.deep_view(), table.deep_view()),
{
    match &s.it {
        SelectableHolder::Computation(c) => match &c.it {
            Stage4ComputationInput::Column(col) => crate::engine::syntax::same_table(
                &col.it.table,
                table,
            ) && crate::engine::syntax::str_eq(col.it.column.it.name, "*"),
            _ => false,
        },
        _ => false,
    }
}

/// Drops the implicit `*` selection of the given table.
pub fn purge_implicit_wildcards<'a>(
    selectables: Vec<Sourced<Stage4Selectable<'a>>>,
    implicit_table: &Sourced<TableInput<'a>>,
) -> (r: Vec<Sourced<Stage4Selectable<'a>>>)
    ensures
        r.deep_view() == purge_wildcards(selectables.deep_view(), implicit_table.deep_view()),
{
    let ghost all = selectables.deep_view();
    let mut rest = selectables;
    let mut kept: Vec<Sourced<Stage4Selectable<'a>>> = Vec::new();
    let n = rest.len();
    let mut k: usize = 0;
    assert(all.skip(0) =~= all);
    while k < n
        invariant
            n == all.len(),
            k <= n,
            rest.deep_view() == all.skip(k as int),
            rest@.len() == n - k,
            kept.deep_view() == purge_wildcards(all.take(k as int), implicit_table.deep_view()),
        decreases n - k,
    {
        let ghost rest_before = rest.deep_view();
        let s = rest.remove(0);
        proof {
            assert(rest_before[0] == s.deep_view());
            assert(rest.deep_view() =~= rest_before.drop_first());
            assert(all.skip(k as int).drop_first() =~= all.skip(k + 1));
            assert(all.take(k + 1).drop_last() =~= all.take(k as int));
            assert(all.take(k + 1).last() == all[k as int]);
            assert(all[k as int] == all.skip(k as int)[0]);
        }
        if !is_wildcard_of_exec(&s, implicit_table) {
            let ghost before = kept.deep_view();
            kept.push(s);
            assert(kept.deep_view() =~= before.push(s.deep_view()));
        }
        k += 1;
    }
    assert(all.take(n as int) =~= all);
    kept
}

impl<'a> Stage4Rep<'a> {
    pub open spec fn model(&self) -> Stage4RepModel {
        self.deep_view()
    }

    /// Gathers the pines into one structure.
    pub fn from(stage3: Stage3Rep<'a>) -> (r: Stage4Rep<'a>)
        requires
            stage3.well_formed(),
        ensures
            r.input == stage3.input,
            r.deep_view() == stage4_of(stage3.pines.deep_view()),
    {
        let ghost all = stage3.pines.deep_view();
        let ghost start = stage4_start(all[0].it->From_table);
        let input = stage3.input;
        let mut pines = stage3.pines;
        let n = pines.len();
        let mut from: Option<Sourced<TableInput<'a>>> = None;
        let mut last_table: Sourced<TableInput<'a>> = match &pines[0].it {
            Stage3Pine::From { table, .. } => *table,
            _ => vstd::pervasive::unreached(),
        };
        let mut filters: Vec<Sourced<Stage4Condition<'a>>> = Vec::new();
        let mut joins: Vec<Sourced<Stage4Join<'a>>> = Vec::new();
        let mut selected_columns: Vec<Sourced<Stage4Selectable<'a>>> = Vec::new();
        let mut orders: Vec<Sourced<Stage4Order<'a>>> = Vec::new();
        let mut group_by: Vec<Sourced<Stage4Selectable<'a>>> = Vec::new();
        let mut limit: Sourced<Stage4Limit<'a>> = Sourced::implicit(LimitHolder::Implicit());
        let mut k: usize = 0;
        assert(all.skip(0) =~= all);
        assert(all.take(0) =~= Seq::empty());
        proof {
            assert(filters.deep_view() =~= Seq::empty());
            assert(joins.deep_view() =~= Seq::empty());
            assert(selected_columns.deep_view() =~= Seq::empty());
            assert(orders.deep_view() =~= Seq::empty());
            assert(group_by.deep_view() =~= Seq::empty());
        }
        while k < n
            invariant
                n == all.len(),
                k <= n,
                crate::engine::syntax::stage3::stage3_well_formed(all),
                start == stage4_start(all[0].it->From_table),
                pines.deep_view() == all.skip(k as int),
                pines@.len() == n - k,
                k == 0 ==> last_table.deep_view() == all[0].it->From_table,
                k == 0 ==> from is None,
                k > 0 ==> (from matches Some(f) && f.deep_view() == all[0].it->From_table),
                stage4_fold(all.take(k as int), start) == (Stage4State {
                    last_table: last_table.deep_view(),
                    filters: filters.deep_view(),
                    joins: joins.deep_view(),
                    selected_columns: selected_columns.deep_view(),
                    orders: orders.deep_view(),
                    group_by: group_by.deep_view(),
                    limit: limit.deep_view(),
                }),
            decreases n - k,
        {
            let ghost pines_before = pines.deep_view();
            let ghost st = stage4_fold(all.take(k as int), start);
            let pine = pines.remove(0);
            proof {
                assert(pines_before[0] == pine.deep_view());
                assert(pines.deep_view() =~= pines_before.drop_first());
                assert(all.skip(k as int).drop_first() =~= all.skip(k + 1));
                assert(all.take(k + 1).drop_last() =~= all.take(k as int));
                assert(all[k as int] == all.skip(k as int)[0]);
                assert(k > 0 ==> !(all[k as int].it is From));
                assert(k == 0 ==> all[k as int].it is From);
                assert(k == 0 ==> pine.it is From);
            }
            match pine.it {
                Stage3Pine::From { table, conditions } => {
                    if from.is_none() {
                        from = Some(table);
                    }
                    last_table = table;
                    append_all(&mut filters, conditions);
                },
                Stage3Pine::Select(selectables) => {
                    selected_columns = purge_implicit_wildcards(selected_columns, &last_table);
                    append_all(&mut selected_columns, selectables);
                },
                Stage3Pine::Limit(new_limit) => {
                    limit = new_limit;
                },
                Stage3Pine::Order(new_orders) => {
                    append_all(&mut orders, new_orders);
                },
                Stage3Pine::GroupBy(selectables) => {
                    let groups = copy_selectables(&selectables);
                    if selected_columns.len() == 0 {
                        let mut with_wildcard = selectables;
                        let ghost before = with_wildcard.deep_view();
                        let wildcard = implicit_wildcard_select(last_table);
                        with_wildcard.push(wildcard);
                        assert(with_wildcard.deep_view() =~= before.push(wildcard.deep_view()));
                        selected_columns = with_wildcard;
                    } else {
                        append_all(&mut selected_columns, selectables);
                    }
                    append_all(&mut group_by, groups);
                },
                Stage3Pine::Filter(conditions) => {
                    append_all(&mut filters, conditions);
                },
                Stage3Pine::Join(join) => {
                    last_table = join.it.target_table;
                    let ghost joins_before = joins.deep_view();
                    let ghost join_view = join.deep_view();
                    joins.push(join);
                    assert(joins.deep_view() =~= joins_before.push(join_view));
                },
            }
            k += 1;
        }
        proof {
            assert(all.take(n as int) =~= all);
        }
        let from = match from {
            Some(f) => f,
            None => vstd::pervasive::unreached(),
        };
        Stage4Rep { input, from, filters, joins, selected_columns, orders, group_by, limit }
    }
}

} // verus!

verus! {

proof fn lemma_fold_keeps_limit(ps: Seq<Sourced<Stage3PineModel>>, st: Stage4State)
    requires
        forall|k: int| 0 <= k < ps.len() ==> !(#[trigger] ps[k].it is Limit),
    ensures
        stage4_fold(ps, st).limit == st.limit,
    decreases ps.len(),
{
    if ps.len() > 0 {
        assert forall|k: int| 0 <= k < ps.drop_last().len() implies !(
        #[trigger] ps.drop_last()[k].it is Limit) by {
            assert(ps.drop_last()[k] == ps[k]);
        }
        lemma_fold_keeps_limit(ps.drop_last(), st);
        assert(!(ps[ps.len() - 1].it is Limit));
    }
}

/// A limit that was not given is a default: implicit, and sourced as such.
pub proof fn lemma_default_limit_is_implicit(ps: Seq<Sourced<Stage3PineModel>>)
    requires
        ps.len() > 0,
        ps[0].it is From,
        forall|k: int| 0 <= k < ps.len() ==> !(#[trigger] ps[k].it is Limit),
    ensures
        stage4_of(ps).limit == (Sourced::<LimitHolder<LiteralModel>> {
            it: LimitHolder::Implicit(),
            source: Source::Implicit,
        }),
{
    lemma_fold_keeps_limit(ps, stage4_start(ps[0].it->From_table));
}

} // verus!

verus! {

/// The conditions a pine adds to the filters: those of a from pine and those of a where pine.
pub open spec fn pine_filters(p: Sourced<Stage3PineModel>) -> Seq<Sourced<Stage4ConditionModel>> {
    match p.it {
        Stage3PineModel::From { conditions, .. } => conditions,
        Stage3PineModel::Filter(cs) => cs,
        _ => Seq::empty(),
    }
}

proof fn lemma_fold_filters(ps: Seq<Sourced<Stage3PineModel>>, st: Stage4State)
    ensures
        stage4_fold(ps, st).filters == st.filters + ps.map_values(
            |p: Sourced<Stage3PineModel>| pine_filters(p),
        ).flatten_alt(),
    decreases ps.len(),
{
    let m = ps.map_values(|p: Sourced<Stage3PineModel>| pine_filters(p));
    if ps.len() == 0 {
        assert(st.filters + m.flatten_alt() =~= st.filters);
    } else {
        lemma_fold_filters(ps.drop_last(), st);
        assert(m.drop_last() =~= ps.drop_last().map_values(
            |p: Sourced<Stage3PineModel>| pine_filters(p),
        ));
        assert(m.last() == pine_filters(ps.last()));
        let before = stage4_fold(ps.drop_last(), st).filters;
        assert(before + pine_filters(ps.last()) =~= st.filters + m.flatten_alt());
    }
}

/// Filters accumulate: the filters gathered from a chain are every condition of its from pine and
/// of each of its where pines, in the order the pines come in.
pub proof fn lemma_filters_accumulate(ps: Seq<Sourced<Stage3PineModel>>)
    requires
        ps.len() > 0,
    ensures
        stage4_of(ps).filters == ps.map_values(|p: Sourced<Stage3PineModel>| pine_filters(p)).flatten(),
{
    let m = ps.map_values(|p: Sourced<Stage3PineModel>| pine_filters(p));
    lemma_fold_filters(ps, stage4_start(ps[0].it->From_table));
    m.lemma_flatten_and_flatten_alt_are_equivalent();
    assert(Seq::<Sourced<Stage4ConditionModel>>::empty() + m.flatten_alt() =~= m.flatten_alt());
}

} // verus!

verus! {

/// The orderings an order pine adds.
pub open spec fn pine_orders(p: Sourced<Stage3PineModel>) -> Seq<Sourced<Stage4OrderModel>> {
    match p.it {
        Stage3PineModel::Order(os) => os,
        _ => Seq::empty(),
    }
}

/// The join a join pine adds.
pub open spec fn pine_joins(p: Sourced<Stage3PineModel>) -> Seq<Sourced<Stage4JoinModel>> {
    match p.it {
        Stage3PineModel::Join(j) => seq![j],
        _ => Seq::empty(),
    }
}

proof fn lemma_fold_orders_and_joins(ps: Seq<Sourced<Stage3PineModel>>, st: Stage4State)
    ensures
        stage4_fold(ps, st).orders == st.orders + ps.map_values(
            |p: Sourced<Stage3PineModel>| pine_orders(p),
        ).flatten_alt(),
        stage4_fold(ps, st).joins == st.joins + ps.map_values(
            |p: Sourced<Stage3PineModel>| pine_joins(p),
        ).flatten_alt(),
    decreases ps.len(),
{
    let m = ps.map_values(|p: Sourced<Stage3PineModel>| pine_orders(p));
    let n = ps.map_values(|p: Sourced<Stage3PineModel>| pine_joins(p));
    if ps.len() == 0 {
        assert(st.orders + m.flatten_alt() =~= st.orders);
        assert(st.joins + n.flatten_alt() =~= st.joins);
    } else {
        lemma_fold_orders_and_joins(ps.drop_last(), st);
        assert(m.drop_last() =~= ps.drop_last().map_values(
            |p: Sourced<Stage3PineModel>| pine_orders(p),
        ));
        assert(n.drop_last() =~= ps.drop_last().map_values(
            |p: Sourced<Stage3PineModel>| pine_joins(p),
        ));
        assert(m.last() == pine_orders(ps.last()));
        assert(n.last() == pine_joins(ps.last()));
        let before = stage4_fold(ps.drop_last(), st);
        assert(before.orders + pine_orders(ps.last()) =~= st.orders + m.flatten_alt());
        assert(before.joins + pine_joins(ps.last()) =~= st.joins + n.flatten_alt());
        if ps.last().it is Join {
            assert(before.joins.push(ps.last().it->Join_0) =~= before.joins + pine_joins(ps.last()));
        }
    }
}

/// Orderings and joins accumulate: the orderings gathered from a chain are those of each of its
/// order pines, and the joins are those of its join pines, one each, in the order the pines come in.
pub proof fn lemma_orders_and_joins_accumulate(ps: Seq<Sourced<Stage3PineModel>>)
    requires
        ps.len() > 0,
    ensures
        stage4_of(ps).orders == ps.map_values(|p: Sourced<Stage3PineModel>| pine_orders(p)).flatten(),
        stage4_of(ps).joins == ps.map_values(|p: Sourced<Stage3PineModel>| pine_joins(p)).flatten(),
{
    let m = ps.map_values(|p: Sourced<Stage3PineModel>| pine_orders(p));
    let n = ps.map_values(|p: Sourced<Stage3PineModel>| pine_joins(p));
    lemma_fold_orders_and_joins(ps, stage4_start(ps[0].it->From_table));
    m.lemma_flatten_and_flatten_alt_are_equivalent();
    n.lemma_flatten_and_flatten_alt_are_equivalent();
    assert(Seq::<Sourced<Stage4OrderModel>>::empty() + m.flatten_alt() =~= m.flatten_alt());
    assert(Seq::<Sourced<Stage4JoinModel>>::empty() + n.flatten_alt() =~= n.flatten_alt());
}

} // verus!

verus! {

proof fn lemma_fold_last_limit(ps: Seq<Sourced<Stage3PineModel>>, st: Stage4State, k: int)
    requires
        0 <= k < ps.len(),
        ps[k].it is Limit,
        forall|j: int| k < j < ps.len() ==> !(#[trigger] ps[j].it is Limit),
    ensures
        stage4_fold(ps, st).limit == ps[k].it->Limit_0,
    decreases ps.len(),
{
    if k < ps.len() - 1 {
        assert(!(ps[ps.len() - 1].it is Limit));
        assert forall|j: int| k < j < ps.drop_last().len() implies !(
        #[trigger] ps.drop_last()[j].it is Limit) by {
            assert(ps.drop_last()[j] == ps[j]);
        }
        lemma_fold_last_limit(ps.drop_last(), st, k);
    }
}

/// A later limit replaces an earlier one: the limit of a chain is that of its last limit pine.
pub proof fn lemma_last_limit_wins(ps: Seq<Sourced<Stage3PineModel>>, k: int)
    requires
        0 <= k < ps.len(),
        ps[k].it is Limit,
        forall|j: int| k < j < ps.len() ==> !(#[trigger] ps[j].it is Limit),
    ensures
        stage4_of(ps).limit == ps[k].it->Limit_0,
{
    lemma_fold_last_limit(ps, stage4_start(ps[0].it->From_table), k);
}

} // verus!
