//! SQL text for a query.
//!
//! A query is rendered one clause per line:
//! ```text
//! SELECT <selection; when nothing is selected, * or, with joins, <FROM table>.*>
//! FROM <table>
//! LEFT JOIN <table> ON <condition> AND <condition>      (one line per join)
//! WHERE <condition> AND <condition>                     (when there are filters)
//! LIMIT <count, or offset and count; 10 when not given>;
//! ```
use crate::engine::query_builder::{
    Computation, ComputationModel, Condition, ConditionModel, ExplicitJoin, ExplicitJoinModel,
    FunctionCall, Limit, LiteralValue, Query, QueryModel, Selectable,
    SelectableModel, SelectedColumn, SelectedColumnModel, Table, TableModel,
};
use crate::engine::syntax::stage2::LiteralModel;
use crate::engine::{
    Comparison, ConditionHolder, JoinType, LimitHolder, LiteralValueHolder,
    SelectableHolder, Sourced, UnaryConditionHolder,
};
use vstd::prelude::*;

verus! {

// ---------------------------------------------------------------------------------------------
// The text of each part

pub open spec fn comparison_text(c: Comparison) -> Seq<char> {
    match c {
        Comparison::Equals => "="@,
        Comparison::NotEquals => "!="@,
        Comparison::GreaterThan => ">"@,
        Comparison::GreaterOrEqual => ">="@,
        Comparison::LesserThan => "<"@,
        Comparison::LesserOrEqual => "<="@,
    }
}

/// The text without its underscores: pines accept numbers like `1_000`, MySQL does not.
pub open spec fn without_underscores(s: Seq<char>) -> Seq<char>
    decreases s.len(),
{
    if s.len() == 0 {
        s
    } else if s.last() == '_' {
        without_underscores(s.drop_last())
    } else {
        without_underscores(s.drop_last()).push(s.last())
    }
}

pub open spec fn literal_text(v: LiteralModel) -> Seq<char> {
    match v {
        LiteralValueHolder::Number(n) => without_underscores(n),
        LiteralValueHolder::String(s) => s,
    }
}

pub open spec fn table_text(t: TableModel) -> Seq<char> {
    match t.db {
        Some(db) => db.it + "."@ + t.name.it,
        None => t.name.it,
    }
}

pub open spec fn column_text(c: SelectedColumnModel) -> Seq<char> {
    match c.table {
        Some(table) => table_text(table.it) + "."@ + c.column.it,
        None => c.column.it,
    }
}

pub open spec fn computation_text(c: ComputationModel) -> Seq<char>
    decreases c,
{
    match c {
        ComputationModel::SelectedColumn(col) => column_text(col.it),
        ComputationModel::FunctionCall(f) => f.it.fn_name.it + "("@ + params_text(f.it.params)
            + ")"@,
        ComputationModel::Value(v) => literal_text(v.it),
    }
}

/// The parameters of a function call, separated by `, `.
pub open spec fn params_text(ps: Seq<Sourced<ComputationModel>>) -> Seq<char>
    decreases ps,
{
    if ps.len() == 0 {
        Seq::empty()
    } else if ps.len() == 1 {
        computation_text(ps.last().it)
    } else {
        params_text(ps.drop_last()) + ", "@ + computation_text(ps.last().it)
    }
}

pub open spec fn condition_text(c: ConditionModel) -> Seq<char> {
    match c {
        ConditionHolder::Unary(u) => match u.it {
            UnaryConditionHolder::IsNull(o) => computation_text(o.it) + " IS NULL"@,
            UnaryConditionHolder::IsNotNull(o) => computation_text(o.it) + " IS NOT NULL"@,
        },
        ConditionHolder::Binary(b) => computation_text(b.it.left.it) + " "@ + comparison_text(
            b.it.comparison.it,
        ) + " "@ + computation_text(b.it.right.it),
    }
}

pub open spec fn selectable_text(s: SelectableModel) -> Seq<char> {
    match s {
        SelectableHolder::Condition(c) => condition_text(c.it),
        SelectableHolder::Computation(c) => computation_text(c.it),
    }
}

pub open spec fn join_type_text(j: JoinType) -> Seq<char> {
    match j {
        JoinType::Left => "LEFT JOIN"@,
    }
}

pub open spec fn limit_text(l: LimitHolder<LiteralModel>) -> Seq<char> {
    match l {
        LimitHolder::Implicit() => "10"@,
        LimitHolder::RowCount(count) => literal_text(count.it),
        LimitHolder::Range { start, count } => literal_text(start.it) + ", "@ + literal_text(
            count.it,
        ),
    }
}

/// The texts of the items, separated by `sep`.
pub open spec fn separated<T>(items: Seq<T>, text: spec_fn(T) -> Seq<char>, sep: Seq<char>) -> Seq<
    char,
>
    decreases items.len(),
{
    if items.len() == 0 {
        Seq::empty()
    } else if items.len() == 1 {
        text(items[0])
    } else {
        separated(items.drop_last(), text, sep) + sep + text(items.last())
    }
}

pub open spec fn condition_item_text() -> spec_fn(Sourced<ConditionModel>) -> Seq<char> {
    |c: Sourced<ConditionModel>| condition_text(c.it)
}

pub open spec fn selectable_item_text() -> spec_fn(Sourced<SelectableModel>) -> Seq<char> {
    |s: Sourced<SelectableModel>| selectable_text(s.it)
}

pub open spec fn join_text(j: ExplicitJoinModel) -> Seq<char> {
    join_type_text(j.join_type.it) + " "@ + table_text(j.target_table.it) + " ON "@ + separated(
        j.conditions,
        condition_item_text(),
        " AND "@,
    )
}

/// The selection. When nothing is selected: `*`, or, when there are joins, all the columns of
/// the table selected from.
pub open spec fn select_text(ss: Seq<Sourced<SelectableModel>>, from: TableModel, joined: bool) -> Seq<
    char,
> {
    if ss.len() == 0 {
        if joined {
            table_text(from) + ".*"@
        } else {
            "*"@
        }
    } else {
        separated(ss, selectable_item_text(), ", "@)
    }
}

/// One line per join.
pub open spec fn joins_text(js: Seq<Sourced<ExplicitJoinModel>>) -> Seq<char>
    decreases js.len(),
{
    if js.len() == 0 {
        Seq::empty()
    } else {
        joins_text(js.drop_last()) + join_text(js.last().it) + "\n"@
    }
}

/// A clause line: nothing when there are no items.
pub open spec fn clause_text<T>(
    keyword: Seq<char>,
    items: Seq<T>,
    text: spec_fn(T) -> Seq<char>,
    sep: Seq<char>,
) -> Seq<char> {
    if items.len() == 0 {
        Seq::empty()
    } else {
        keyword + separated(items, text, sep) + "\n"@
    }
}

/// The first two lines: what is selected, and from where.
pub open spec fn head_text(select: Seq<Sourced<SelectableModel>>, from: TableModel, joined: bool) -> Seq<
    char,
> {
    "SELECT "@ + select_text(select, from, joined) + "\n"@ + "FROM "@ + table_text(from) + "\n"@
}

/// The filtering line, only when there are filters.
pub open spec fn where_text(filters: Seq<Sourced<ConditionModel>>) -> Seq<char> {
    clause_text("WHERE "@, filters, condition_item_text(), " AND "@)
}

/// The SQL text of a query, without the final `;`.
pub open spec fn query_text(q: QueryModel) -> Seq<char> {
    head_text(q.select, q.from.it, q.joins.len() > 0) + joins_text(q.joins) + where_text(q.filters)
        + "LIMIT "@ + limit_text(q.limit.it)
}

/// A query with no limit given renders `LIMIT 10;` at its end.
pub proof fn lemma_implicit_limit_text(q: QueryModel)
    ensures
        q.limit.it is Implicit ==> {
            let sql = query_text(q) + ";"@;
            sql.len() >= 9 && sql.subrange(sql.len() - 9, sql.len() as int) == "LIMIT 10;"@
        },
{
    if q.limit.it is Implicit {
        reveal_strlit("LIMIT ");
        reveal_strlit("10");
        reveal_strlit(";");
        reveal_strlit("LIMIT 10;");
        let prefix = head_text(q.select, q.from.it, q.joins.len() > 0) + joins_text(q.joins)
            + where_text(q.filters);
        let sql = query_text(q) + ";"@;
        assert(sql =~= prefix + "LIMIT 10;"@);
        assert(sql.subrange(sql.len() - 9, sql.len() as int) =~= "LIMIT 10;"@);
    }
}

/// Whether the text holds no line break.
pub open spec fn without_line_break(s: Seq<char>) -> bool {
    forall|k: int| 0 <= k < s.len() ==> s[k] != '\n'
}

pub open spec fn starts_with(s: Seq<char>, prefix: Seq<char>) -> bool {
    prefix.len() <= s.len() && s.subrange(0, prefix.len() as int) == prefix
}

/// Whether the line after the first line break starts with `prefix`.
pub open spec fn second_line_starts_with(s: Seq<char>, prefix: Seq<char>) -> bool {
    exists|i: int|
        0 <= i < s.len() && s[i] == '\n' && without_line_break(#[trigger] s.subrange(0, i))
            && starts_with(s.subrange(i + 1, s.len() as int), prefix)
}

/// Whether the line after the last line break starts with `prefix`.
pub open spec fn last_line_starts_with(s: Seq<char>, prefix: Seq<char>) -> bool {
    exists|i: int|
        0 <= i < s.len() && s[i] == '\n' && without_line_break(#[trigger] s.subrange(i + 1, s.len() as int))
            && starts_with(s.subrange(i + 1, s.len() as int), prefix)
}

/// Whether a literal is a number without line breaks.
pub open spec fn number_without_line_break(v: LiteralModel) -> bool {
    v is Number && without_line_break(v->Number_0)
}

/// Whether every literal of a limit is a number without line breaks, as the pine syntax has it.
pub open spec fn limit_of_numbers(l: LimitHolder<LiteralModel>) -> bool {
    match l {
        LimitHolder::Implicit() => true,
        LimitHolder::RowCount(count) => number_without_line_break(count.it),
        LimitHolder::Range { start, count } => number_without_line_break(start.it)
            && number_without_line_break(count.it),
    }
}

proof fn lemma_without_underscores_no_break(s: Seq<char>)
    requires
        without_line_break(s),
    ensures
        without_line_break(without_underscores(s)),
    decreases s.len(),
{
    if s.len() > 0 {
        assert(without_line_break(s.drop_last()));
        lemma_without_underscores_no_break(s.drop_last());
    }
}

/// A limit made of numbers renders on one line.
pub proof fn lemma_limit_text_one_line(l: LimitHolder<LiteralModel>)
    requires
        limit_of_numbers(l),
    ensures
        without_line_break(limit_text(l)),
{
    reveal_strlit("10");
    reveal_strlit(", ");
    match l {
        LimitHolder::Implicit() => {},
        LimitHolder::RowCount(count) => lemma_without_underscores_no_break(count.it->Number_0),
        LimitHolder::Range { start, count } => {
            lemma_without_underscores_no_break(start.it->Number_0);
            lemma_without_underscores_no_break(count.it->Number_0);
            let a = without_underscores(start.it->Number_0);
            let b = without_underscores(count.it->Number_0);
            assert forall|k: int| 0 <= k < (a + ", "@ + b).len() implies (a + ", "@ + b)[k] != '\n' by {
                if k < a.len() {
                } else if k < a.len() + 2 {
                } else {
                    assert((a + ", "@ + b)[k] == b[k - a.len() - 2]);
                }
            }
        },
    }
}

/// The shape of a query's SQL: it starts with `SELECT `, its second line starts with `FROM `,
/// its last line starts with `LIMIT `, and it ends with `;`. This holds unless what is selected,
/// or the limit, holds a line break, which only a string literal can.
pub proof fn lemma_query_text_shape(q: QueryModel)
    requires
        without_line_break(select_text(q.select, q.from.it, q.joins.len() > 0)),
        without_line_break(limit_text(q.limit.it)),
    ensures
        ({
            let sql = query_text(q) + ";"@;
            &&& starts_with(sql, "SELECT "@)
            &&& second_line_starts_with(sql, "FROM "@)
            &&& last_line_starts_with(sql, "LIMIT "@)
            &&& sql.last() == ';'
        }),
{
    reveal_strlit("SELECT ");
    reveal_strlit("FROM ");
    reveal_strlit("LIMIT ");
    reveal_strlit("\n");
    reveal_strlit(";");
    let joined = q.joins.len() > 0;
    let select = select_text(q.select, q.from.it, joined);
    let sql = query_text(q) + ";"@;
    let tail = joins_text(q.joins) + where_text(q.filters);
    let head = head_text(q.select, q.from.it, joined);
    let prefix = head + tail;
    let last = "LIMIT "@ + limit_text(q.limit.it) + ";"@;
    assert(sql =~= prefix + last);
    // the first line
    let i: int = 7 + select.len() as int;
    assert(sql.subrange(0, 7) =~= "SELECT "@);
    assert(sql[i] == '\n');
    assert(sql.subrange(0, i) =~= "SELECT "@ + select);
    assert(sql.subrange(i + 1, sql.len() as int).subrange(0, 5) =~= "FROM "@);
    assert(without_line_break(sql.subrange(0, i)));
    // the last line
    lemma_ends_with_break(q);
    let j: int = prefix.len() - 1;
    assert(sql[j] == '\n');
    assert(sql.subrange(j + 1, sql.len() as int) =~= last);
    assert(last.subrange(0, 6) =~= "LIMIT "@);
    assert(without_line_break(last));
}

proof fn lemma_ends_with_break(q: QueryModel)
    ensures
        ({
            let prefix = head_text(q.select, q.from.it, q.joins.len() > 0) + joins_text(q.joins)
                + where_text(q.filters);
            prefix.len() > 0 && prefix.last() == '\n'
        }),
{
    reveal_strlit("\n");
    let head = head_text(q.select, q.from.it, q.joins.len() > 0);
    let js = joins_text(q.joins);
    let w = where_text(q.filters);
    assert(head.last() == '\n');
    if q.joins.len() > 0 {
        assert(js.last() == '\n');
    } else {
        assert(js =~= Seq::<char>::empty());
    }
    assert((head + js).last() == '\n');
    if q.filters.len() > 0 {
        assert(w.last() == '\n');
    } else {
        assert(w =~= Seq::<char>::empty());
    }
    assert((head + js + w).last() == '\n');
}

// ---------------------------------------------------------------------------------------------
// Writing it

proof fn lemma_separated_take<T>(items: Seq<T>, text: spec_fn(T) -> Seq<char>, sep: Seq<char>, k: int)
    requires
        0 <= k < items.len(),
    ensures
        separated(items.take(k + 1), text, sep) == (if k == 0 {
            text(items[0])
        } else {
            separated(items.take(k), text, sep) + sep + text(items[k])
        }),
{
    assert(items.take(k + 1).drop_last() =~= items.take(k));
    assert(items.take(k + 1)[0] == items[0]);
}

proof fn lemma_take_all<T>(items: Seq<T>)
    ensures
        items.take(items.len() as int) == items,
{
    assert(items.take(items.len() as int) =~= items);
}

pub fn write_comparison(out: &mut String, c: Comparison)
    ensures
        final(out)@ == old(out)@ + comparison_text(c),
{
    match c {
        Comparison::Equals => out.append("="),
        Comparison::NotEquals => out.append("!="),
        Comparison::GreaterThan => out.append(">"),
        Comparison::GreaterOrEqual => out.append(">="),
        Comparison::LesserThan => out.append("<"),
        Comparison::LesserOrEqual => out.append("<="),
    }
}

/// Writes `s` without its underscores.
pub fn write_without_underscores(out: &mut String, s: &str)
    ensures
        final(out)@ == old(out)@ + without_underscores(s@),
{
    let n = s.unicode_len();
    let mut i: usize = 0;
    proof {
        assert(s@.take(0).len() == 0);
        assert(old(out)@ + without_underscores(s@.take(0)) =~= old(out)@);
    }
    while i < n
        invariant
            n == s@.len(),
            i <= n,
            out@ == old(out)@ + without_underscores(s@.take(i as int)),
        decreases n - i,
    {
        let ghost before = out@;
        proof {
            assert(s@.take(i + 1).drop_last() =~= s@.take(i as int));
            assert(s@.take(i + 1).last() == s@[i as int]);
        }
        if s.get_char(i) != '_' {
            let c = s.substring_char(i, i + 1);
            out.append(c);
            proof {
                assert(c@ =~= seq![s@[i as int]]);
                assert(out@ =~= old(out)@ + without_underscores(s@.take(i + 1)));
            }
        }
        i += 1;
    }
    proof {
        lemma_take_all(s@);
    }
}

pub fn write_literal(out: &mut String, v: &LiteralValue)
    ensures
        final(out)@ == old(out)@ + literal_text(v.deep_view()),
{
    match v {
        LiteralValueHolder::Number(n) => write_without_underscores(out, n.as_str()),
        LiteralValueHolder::String(s) => out.append(s.as_str()),
    }
}

pub fn write_table(out: &mut String, t: &Table)
    ensures
        final(out)@ == old(out)@ + table_text(t.deep_view()),
{
    if let Some(db) = &t.db {
        out.append(db.it.0.as_str());
        out.append(".");
    }
    out.append(t.name.it.0.as_str());
    proof {
        assert(out@ =~= old(out)@ + table_text(t.deep_view()));
    }
}

pub fn write_selected_column(out: &mut String, c: &SelectedColumn)
    ensures
        final(out)@ == old(out)@ + column_text(c.deep_view()),
{
    if let Some(table) = &c.table {
        write_table(out, &table.it);
        out.append(".");
    }
    out.append(c.column.it.0.as_str());
    proof {
        assert(out@ =~= old(out)@ + column_text(c.deep_view()));
    }
}

pub fn write_computation(out: &mut String, c: &Sourced<Computation>)
    ensures
        final(out)@ == old(out)@ + computation_text(c.it.deep_view()),
    decreases c,
{
    match &c.it {
        Computation::SelectedColumn(col) => write_selected_column(out, &col.it),
        Computation::Value(v) => write_literal(out, &v.it),
        Computation::FunctionCall(f) => {
            out.append(f.it.fn_name.it.as_str());
            out.append("(");
            let ghost mid = out@;
            let n = f.it.params.len();
            let ghost params = crate::engine::query_builder::computations_model(f.it.params@);
            proof {
                crate::engine::query_builder::lemma_computations_model_len(f.it.params@);
                assert(params.take(0) =~= Seq::<Sourced<ComputationModel>>::empty());
                assert(out@ =~= mid + params_text(params.take(0)));
            }
            let mut k: usize = 0;
            while k < n
                invariant
                    c.it == Computation::FunctionCall(*f),
                    n == f.it.params@.len(),
                    params == crate::engine::query_builder::computations_model(f.it.params@),
                    params.len() == n,
                    k <= n,
                    out@ == mid + params_text(params.take(k as int)),
                decreases n - k,
            {
                proof {
                    let g = c.it->FunctionCall_0;
                    assert(decreases_to!(c => c.it));
                    assert(decreases_to!(c.it => g));
                    assert(decreases_to!(g => g.it));
                    assert(decreases_to!(g.it => g.it.params));
                    assert(decreases_to!(g.it.params => g.it.params@));
                    assert(decreases_to!(g.it.params@ => g.it.params@[k as int]));
                    crate::engine::query_builder::lemma_computations_model_index(f.it.params@, k as int);
                    assert(params.take(k + 1).drop_last() =~= params.take(k as int));
                    assert(params.take(k + 1).last() == params[k as int]);
                }
                let ghost before = out@;
                if k > 0 {
                    out.append(", ");
                }
                write_computation(out, &f.it.params[k]);
                proof {
                    assert(out@ =~= mid + params_text(params.take(k + 1)));
                }
                k += 1;
            }
            out.append(")");
            proof {
                lemma_take_all(params);
                assert(out@ =~= old(out)@ + computation_text(c.it.deep_view()));
            }
        },
    }
}

pub fn write_condition(out: &mut String, c: &Condition)
    ensures
        final(out)@ == old(out)@ + condition_text(c.deep_view()),
{
    match c {
        ConditionHolder::Unary(u) => match &u.it {
            UnaryConditionHolder::IsNull(o) => {
                write_computation(out, o);
                out.append(" IS NULL");
            },
            UnaryConditionHolder::IsNotNull(o) => {
                write_computation(out, o);
                out.append(" IS NOT NULL");
            },
        },
        ConditionHolder::Binary(b) => {
            write_computation(out, &b.it.left);
            out.append(" ");
            write_comparison(out, b.it.comparison.it);
            out.append(" ");
            write_computation(out, &b.it.right);
        },
    }
    proof {
        assert(out@ =~= old(out)@ + condition_text(c.deep_view()));
    }
}

pub fn write_selectable(out: &mut String, s: &Selectable)
    ensures
        final(out)@ == old(out)@ + selectable_text(s.deep_view()),
{
    match s {
        SelectableHolder::Condition(c) => write_condition(out, &c.it),
        SelectableHolder::Computation(c) => write_computation(out, c),
    }
}

pub fn write_conditions(out: &mut String, cs: &Vec<Sourced<Condition>>, sep: &str)
    ensures
        final(out)@ == old(out)@ + separated(cs.deep_view(), condition_item_text(), sep@),
{
    let ghost items = cs.deep_view();
    let n = cs.len();
    let mut k: usize = 0;
    proof {
        assert(out@ =~= old(out)@ + separated(items.take(0), condition_item_text(), sep@));
    }
    while k < n
        invariant
            n == cs@.len(),
            items == cs.deep_view(),
            k <= n,
            out@ == old(out)@ + separated(items.take(k as int), condition_item_text(), sep@),
        decreases n - k,
    {
        proof {
            lemma_separated_take(items, condition_item_text(), sep@, k as int);
        }
        if k > 0 {
            out.append(sep);
        }
        write_condition(out, &cs[k].it);
        proof {
            assert(out@ =~= old(out)@ + separated(items.take(k + 1), condition_item_text(), sep@));
        }
        k += 1;
    }
    proof {
        lemma_take_all(items);
    }
}

pub fn write_selectables(out: &mut String, ss: &Vec<Sourced<Selectable>>, sep: &str)
    ensures
        final(out)@ == old(out)@ + separated(ss.deep_view(), selectable_item_text(), sep@),
{
    let ghost items = ss.deep_view();
    let n = ss.len();
    let mut k: usize = 0;
    proof {
        assert(out@ =~= old(out)@ + separated(items.take(0), selectable_item_text(), sep@));
    }
    while k < n
        invariant
            n == ss@.len(),
            items == ss.deep_view(),
            k <= n,
            out@ == old(out)@ + separated(items.take(k as int), selectable_item_text(), sep@),
        decreases n - k,
    {
        proof {
            lemma_separated_take(items, selectable_item_text(), sep@, k as int);
        }
        if k > 0 {
            out.append(sep);
        }
        write_selectable(out, &ss[k].it);
        proof {
            assert(out@ =~= old(out)@ + separated(items.take(k + 1), selectable_item_text(), sep@));
        }
        k += 1;
    }
    proof {
        lemma_take_all(items);
    }
}

pub fn write_join(out: &mut String, j: &ExplicitJoin)
    ensures
        final(out)@ == old(out)@ + join_text(j.deep_view()),
{
    match j.join_type.it {
        JoinType::Left => out.append("LEFT JOIN"),
    }
    out.append(" ");
    write_table(out, &j.target_table.it);
    out.append(" ON ");
    write_conditions(out, &j.conditions, " AND ");
    proof {
        assert(out@ =~= old(out)@ + join_text(j.deep_view()));
    }
}

pub fn write_limit(out: &mut String, l: &Limit)
    ensures
        final(out)@ == old(out)@ + limit_text(l.deep_view()),
{
    match l {
        LimitHolder::Implicit() => out.append("10"),
        LimitHolder::RowCount(count) => write_literal(out, &count.it),
        LimitHolder::Range { start, count } => {
            write_literal(out, &start.it);
            out.append(", ");
            write_literal(out, &count.it);
        },
    }
    proof {
        assert(out@ =~= old(out)@ + limit_text(l.deep_view()));
    }
}

pub fn write_joins(out: &mut String, js: &Vec<Sourced<ExplicitJoin>>)
    ensures
        final(out)@ == old(out)@ + joins_text(js.deep_view()),
{
    let ghost joins = js.deep_view();
    let n = js.len();
    let mut k: usize = 0;
    proof {
        assert(joins.take(0) =~= Seq::<Sourced<ExplicitJoinModel>>::empty());
        assert(out@ =~= old(out)@ + joins_text(joins.take(0)));
    }
    while k < n
        invariant
            n == js@.len(),
            joins == js.deep_view(),
            k <= n,
            out@ == old(out)@ + joins_text(joins.take(k as int)),
        decreases n - k,
    {
        proof {
            assert(joins.take(k + 1).drop_last() =~= joins.take(k as int));
            assert(joins.take(k + 1).last() == joins[k as int]);
        }
        write_join(out, &js[k].it);
        out.append("\n");
        proof {
            assert(out@ =~= old(out)@ + joins_text(joins.take(k + 1)));
        }
        k += 1;
    }
    proof {
        lemma_take_all(joins);
    }
}

pub fn write_head(out: &mut String, select: &Vec<Sourced<Selectable>>, from: &Table, joined: bool)
    ensures
        final(out)@ == old(out)@ + head_text(select.deep_view(), from.deep_view(), joined),
{
    out.append("SELECT ");
    let ghost after_keyword = out@;
    if select.len() == 0 {
        if joined {
            write_table(out, from);
            out.append(".*");
        } else {
            out.append("*");
        }
    } else {
        write_selectables(out, select, ", ");
    }
    proof {
        assert(out@ =~= after_keyword + select_text(select.deep_view(), from.deep_view(), joined));
    }
    out.append("\n");
    out.append("FROM ");
    write_table(out, from);
    out.append("\n");
    proof {
        assert(out@ =~= old(out)@ + head_text(select.deep_view(), from.deep_view(), joined));
    }
}

pub fn write_where(out: &mut String, filters: &Vec<Sourced<Condition>>)
    ensures
        final(out)@ == old(out)@ + where_text(filters.deep_view()),
{
    if filters.len() > 0 {
        out.append("WHERE ");
        write_conditions(out, filters, " AND ");
        out.append("\n");
    }
    proof {
        assert(out@ =~= old(out)@ + where_text(filters.deep_view()));
    }
}

pub fn write_query(out: &mut String, q: &Query)
    ensures
        final(out)@ == old(out)@ + query_text(q.deep_view()),
{
    write_head(out, &q.select, &q.from.it, q.joins.len() > 0);
    write_joins(out, &q.joins);
    write_where(out, &q.filters);
    out.append("LIMIT ");
    write_limit(out, &q.limit.it);
    proof {
        assert(out@ =~= old(out)@ + query_text(q.deep_view()));
    }
}

/// The SQL text of a query, ending with `;`.
pub fn render_query(query: Query) -> (r: String)
    ensures
        r@ == query_text(query.deep_view()) + ";"@,
{
    let mut out = String::new();
    write_query(&mut out, &query);
    out.append(";");
    proof {
        assert(out@ =~= query_text(query.deep_view()) + ";"@);
    }
    out
}

} // verus!

verus! {

// ---------------------------------------------------------------------------------------------
// Numbers

pub open spec fn digit_char(d: nat) -> char {
    "0123456789"@[d as int]
}

/// The decimal digits of `n`.
pub open spec fn decimal_text(n: nat) -> Seq<char>
    decreases n,
{
    if n < 10 {
        seq![digit_char(n)]
    } else {
        decimal_text(n / 10).push(digit_char(n % 10))
    }
}

/// Writes `n` in decimal.
pub fn write_decimal(out: &mut String, n: usize)
    ensures
        final(out)@ == old(out)@ + decimal_text(n as nat),
    decreases n,
{
    if n >= 10 {
        write_decimal(out, n / 10);
    }
    let digits = "0123456789";
    proof {
        reveal_strlit("0123456789");
    }
    let d = n % 10;
    let c = digits.substring_char(d, d + 1);
    out.append(c);
    proof {
        assert(c@ =~= seq![digit_char(d as nat)]);
        assert(out@ =~= old(out)@ + decimal_text(n as nat));
    }
}

} // verus!

verus! {

/// Each comparison is written as its own SQL operator: `=`, `!=`, `>`, `>=`, `<`, `<=`. No two
/// comparisons are written alike; only the "lesser" ones hold `<`, only the "greater" ones `>`.
pub proof fn lemma_comparison_symbols(c: Comparison)
    ensures
        comparison_text(c) == match c {
            Comparison::Equals => seq!['='],
            Comparison::NotEquals => seq!['!', '='],
            Comparison::GreaterThan => seq!['>'],
            Comparison::GreaterOrEqual => seq!['>', '='],
            Comparison::LesserThan => seq!['<'],
            Comparison::LesserOrEqual => seq!['<', '='],
        },
        forall|d: Comparison| comparison_text(c) == #[trigger] comparison_text(d) ==> c == d,
        comparison_text(c).contains('<') <==> (c is LesserThan || c is LesserOrEqual),
        comparison_text(c).contains('>') <==> (c is GreaterThan || c is GreaterOrEqual),
        comparison_text(c).contains('=') <==> (c is Equals || c is NotEquals || c is GreaterOrEqual
            || c is LesserOrEqual),
{
    reveal_strlit("=");
    reveal_strlit("!=");
    reveal_strlit(">");
    reveal_strlit(">=");
    reveal_strlit("<");
    reveal_strlit("<=");
    let t = comparison_text(c);
    assert forall|d: Comparison| t == #[trigger] comparison_text(d) implies c == d by {
        let u = comparison_text(d);
        assert(t.len() == u.len());
        assert(t[0] == u[0]);
        if t.len() == 2 {
            assert(t[1] == u[1]);
        }
    }
    if t.len() == 2 {
        assert(t.contains(t[1]));
    }
    assert(t.contains(t[0]));
}

/// A null test is written as its operand followed by `IS NULL`, or `IS NOT NULL` when negated.
pub proof fn lemma_null_test_words(c: ConditionModel)
    ensures
        c matches ConditionHolder::Unary(u) ==> match u.it {
            UnaryConditionHolder::IsNull(o) => condition_text(c) == computation_text(o.it) + seq![
                ' ',
                'I',
                'S',
                ' ',
                'N',
                'U',
                'L',
                'L',
            ],
            UnaryConditionHolder::IsNotNull(o) => condition_text(c) == computation_text(o.it)
                + seq![' ', 'I', 'S', ' ', 'N', 'O', 'T', ' ', 'N', 'U', 'L', 'L'],
        },
{
    reveal_strlit(" IS NULL");
    reveal_strlit(" IS NOT NULL");
    if let ConditionHolder::Unary(u) = c {
        match u.it {
            UnaryConditionHolder::IsNull(o) => {
                assert(" IS NULL"@ =~= seq![' ', 'I', 'S', ' ', 'N', 'U', 'L', 'L']);
            },
            UnaryConditionHolder::IsNotNull(o) => {
                assert(" IS NOT NULL"@ =~= seq![' ', 'I', 'S', ' ', 'N', 'O', 'T', ' ', 'N', 'U', 'L', 'L']);
            },
        }
    }
}

} // verus!
