//! The shared vocabulary of every stage: where a piece of data came from, and the
//! generic holders for conditions, selections, joins, orders and limits.
pub mod query_builder;
pub mod rendering;
pub mod sql;
pub mod syntax;

use vstd::prelude::*;

verus! {

/// Start (inclusive) and end (exclusive) of a piece of the input, counted in bytes.
#[derive(PartialEq, Eq, Structural, Debug, Clone, Copy)]
pub struct Position {
    pub start: usize,
    pub end: usize,
}

impl DeepView for Position {
    type V = Position;

    open spec fn deep_view(&self) -> Position {
        *self
    }
}

/// Where a value came from.
#[derive(Debug, Clone, Copy, PartialEq, Eq, Structural)]
pub enum Source {
    /// Things like default values are implicit.
    Implicit,
    /// These are things that we deduced by analyzing the database structure.
    Introspection,
    /// We found this in the input provided by the user.
    Input(Position),
}

impl DeepView for Source {
    type V = Source;

    open spec fn deep_view(&self) -> Source {
        *self
    }
}

/// Where the character at `i` of `s` starts, counted in bytes of its UTF-8 encoding, as
/// `str::len` gives it.
pub open spec fn byte_position(s: Seq<char>, i: int) -> usize {
    vstd::utf8::encode_utf8(s.subrange(0, i)).len() as usize
}

/// The source of the text of `s` between the characters `start` and `end`: positions are
/// counted in bytes.
pub open spec fn input_source(s: Seq<char>, start: int, end: int) -> Source {
    Source::Input(Position { start: byte_position(s, start), end: byte_position(s, end) })
}

/// A value, together with a reference to where we got it from.
///
/// This is what lets error messages point at the part of the input that caused them.
#[derive(Debug, Clone, Copy, PartialEq)]
pub struct Sourced<T> {
    pub it: T,
    pub source: Source,
}

impl<T: DeepView> DeepView for Sourced<T> {
    type V = Sourced<T::V>;

    open spec fn deep_view(&self) -> Sourced<T::V> {
        Sourced { it: self.it.deep_view(), source: self.source }
    }
}

impl<T> Sourced<T> {
    /// Something from the source input the user provided.
    pub fn from_input(position: Position, it: T) -> (r: Self)
        ensures
            r.it == it,
            r.source == Source::Input(position),
    {
        Sourced { it, source: Source::Input(position) }
    }

    /// Something that is implicit, this could be default values, for example.
    pub fn implicit(it: T) -> (r: Self)
        ensures
            r.it == it,
            r.source == Source::Implicit,
    {
        Sourced { it, source: Source::Implicit }
    }

    pub fn from_source(source: Source, it: T) -> (r: Sourced<T>)
        ensures
            r.it == it,
            r.source == source,
    {
        Sourced { it, source }
    }

    pub fn from_introspection(it: T) -> (r: Sourced<T>)
        ensures
            r.it == it,
            r.source == Source::Introspection,
    {
        Sourced { it, source: Source::Introspection }
    }

    /// Converts the held value, keeping its source.
    pub fn into<D: From<T>>(self) -> (r: Sourced<D>)
        ensures
            r.source == self.source,
            call_ensures(D::from, (self.it,), r.it),
    {
        let source = self.source;
        let it = D::from(self.it);
        Sourced { it, source }
    }

    /// The held value transformed by `f`, with the same source.
    pub open spec fn mapped<D>(self, f: spec_fn(T) -> D) -> Sourced<D> {
        Sourced { it: f(self.it), source: self.source }
    }

    /// The held value, taken by reference, transformed by `f`, with the same source.
    pub open spec fn mapped_ref<D>(self, f: spec_fn(&T) -> D) -> Sourced<D> {
        Sourced { it: f(&self.it), source: self.source }
    }

    /// Transforms the held value, keeping its source.
    pub fn map<D, F: FnOnce(T) -> D>(self, mapper: F) -> (r: Sourced<D>)
        requires
            mapper.requires((self.it,)),
        ensures
            r.source == self.source,
            mapper.ensures((self.it,), r.it),
            forall|f: spec_fn(T) -> D|
                (forall|x: T, y: D| #[trigger] mapper.ensures((x,), y) ==> y == f(x))
                    ==> r == #[trigger] self.mapped(f),
    {
        let source = self.source;
        Sourced { it: mapper(self.it), source }
    }

    /// Transforms a reference to the held value, keeping its source.
    pub fn map_ref<D, F: FnOnce(&T) -> D>(&self, mapper: F) -> (r: Sourced<D>)
        requires
            mapper.requires((&self.it,)),
        ensures
            r.source == self.source,
            mapper.ensures((&self.it,), r.it),
            forall|f: spec_fn(&T) -> D|
                (forall|x: &T, y: D| #[trigger] mapper.ensures((x,), y) ==> y == f(x))
                    ==> r == #[trigger] self.mapped_ref(f),
    {
        Sourced { it: mapper(&self.it), source: self.source }
    }
}

impl<T, E> Sourced<Result<T, E>> {
    /// Moves the source inside of a result: the error loses it, the success keeps it.
    pub fn unwrap_result(self) -> (r: Result<Sourced<T>, E>)
        ensures
            match self.it {
                Ok(it) => r == Ok::<Sourced<T>, E>(Sourced { it, source: self.source }),
                Err(error) => r == Err::<Sourced<T>, E>(error),
            },
    {
        let Sourced { it, source } = self;
        match it {
            Ok(it) => Ok(Sourced::from_source(source, it)),
            Err(error) => Err(error),
        }
    }
}

#[derive(Debug, Clone, Copy, PartialEq, Eq)]
pub enum Comparison {
    Equals,
    NotEquals,
    GreaterThan,
    GreaterOrEqual,
    LesserThan,
    LesserOrEqual,
}

impl DeepView for Comparison {
    type V = Comparison;

    open spec fn deep_view(&self) -> Comparison {
        *self
    }
}

#[derive(Debug, Copy, Clone, PartialEq, Eq)]
pub enum JoinType {
    Left,
}

impl DeepView for JoinType {
    type V = JoinType;

    open spec fn deep_view(&self) -> JoinType {
        *self
    }
}

#[derive(Debug, Copy, Clone, PartialEq, Eq)]
pub enum OrderDirection {
    Ascending,
    Descending,
}

impl DeepView for OrderDirection {
    type V = OrderDirection;

    open spec fn deep_view(&self) -> OrderDirection {
        *self
    }
}

/// A literal value like 1 or "kitten".
#[derive(Debug, Clone, Copy, PartialEq)]
pub enum LiteralValueHolder<T> {
    Number(T),
    String(T),
}

impl<T: DeepView> DeepView for LiteralValueHolder<T> {
    type V = LiteralValueHolder<T::V>;

    open spec fn deep_view(&self) -> LiteralValueHolder<T::V> {
        match self {
            LiteralValueHolder::Number(t) => LiteralValueHolder::Number(t.deep_view()),
            LiteralValueHolder::String(t) => LiteralValueHolder::String(t.deep_view()),
        }
    }
}

/// A row limit: nothing given, a row count, or an offset and a count.
#[derive(Debug, Clone, Copy, PartialEq)]
pub enum LimitHolder<T> {
    Implicit(),
    RowCount(Sourced<T>),
    Range { start: Sourced<T>, count: Sourced<T> },
}

impl<T: DeepView> DeepView for LimitHolder<T> {
    type V = LimitHolder<T::V>;

    open spec fn deep_view(&self) -> LimitHolder<T::V> {
        match self {
            LimitHolder::Implicit() => LimitHolder::Implicit(),
            LimitHolder::RowCount(c) => LimitHolder::RowCount(c.deep_view()),
            LimitHolder::Range { start, count } => LimitHolder::Range {
                start: start.deep_view(),
                count: count.deep_view(),
            },
        }
    }
}

#[derive(Debug, Clone, Copy, PartialEq)]
pub struct OrderHolder<T> {
    pub selectable: Sourced<T>,
    pub direction: Sourced<OrderDirection>,
}

impl<T: DeepView> DeepView for OrderHolder<T> {
    type V = OrderHolder<T::V>;

    open spec fn deep_view(&self) -> OrderHolder<T::V> {
        OrderHolder { selectable: self.selectable.deep_view(), direction: self.direction }
    }
}

#[derive(Debug, Clone, Copy, PartialEq)]
pub enum SelectableHolder<Cond, Comp> {
    Condition(Sourced<Cond>),
    Computation(Sourced<Comp>),
}

impl<Cond: DeepView, Comp: DeepView> DeepView for SelectableHolder<Cond, Comp> {
    type V = SelectableHolder<Cond::V, Comp::V>;

    open spec fn deep_view(&self) -> SelectableHolder<Cond::V, Comp::V> {
        match self {
            SelectableHolder::Condition(c) => SelectableHolder::Condition(c.deep_view()),
            SelectableHolder::Computation(c) => SelectableHolder::Computation(c.deep_view()),
        }
    }
}

#[derive(Debug, Clone, Copy, PartialEq)]
pub enum ConditionHolder<T> {
    Unary(Sourced<UnaryConditionHolder<T>>),
    Binary(Sourced<BinaryConditionHolder<T>>),
}

impl<T: DeepView> DeepView for ConditionHolder<T> {
    type V = ConditionHolder<T::V>;

    open spec fn deep_view(&self) -> ConditionHolder<T::V> {
        match self {
            ConditionHolder::Unary(c) => ConditionHolder::Unary(c.deep_view()),
            ConditionHolder::Binary(c) => ConditionHolder::Binary(c.deep_view()),
        }
    }
}

#[derive(Debug, Clone, Copy, PartialEq)]
pub struct BinaryConditionHolder<T> {
    pub left: Sourced<T>,
    pub comparison: Sourced<Comparison>,
    pub right: Sourced<T>,
}

impl<T: DeepView> DeepView for BinaryConditionHolder<T> {
    type V = BinaryConditionHolder<T::V>;

    open spec fn deep_view(&self) -> BinaryConditionHolder<T::V> {
        BinaryConditionHolder {
            left: self.left.deep_view(),
            comparison: self.comparison,
            right: self.right.deep_view(),
        }
    }
}

#[derive(Debug, Clone, Copy, PartialEq)]
pub enum UnaryConditionHolder<T> {
    IsNull(Sourced<T>),
    IsNotNull(Sourced<T>),
}

impl<T: DeepView> DeepView for UnaryConditionHolder<T> {
    type V = UnaryConditionHolder<T::V>;

    open spec fn deep_view(&self) -> UnaryConditionHolder<T::V> {
        match self {
            UnaryConditionHolder::IsNull(c) => UnaryConditionHolder::IsNull(c.deep_view()),
            UnaryConditionHolder::IsNotNull(c) => UnaryConditionHolder::IsNotNull(c.deep_view()),
        }
    }
}

/// How a join finds its rows: by looking at foreign keys, or by the conditions given.
#[derive(Debug)]
pub enum JoinConditions<T> {
    Auto,
    Explicit(Vec<Sourced<T>>),
}

/// The mathematical counterpart of [`JoinConditions`].
pub enum JoinConditionsModel<T> {
    Auto,
    Explicit(Seq<Sourced<T>>),
}

impl<T: DeepView> DeepView for JoinConditions<T> {
    type V = JoinConditionsModel<T::V>;

    open spec fn deep_view(&self) -> JoinConditionsModel<T::V> {
        match self {
            JoinConditions::Auto => JoinConditionsModel::Auto,
            JoinConditions::Explicit(c) => JoinConditionsModel::Explicit(c.deep_view()),
        }
    }
}

#[derive(Debug)]
pub struct JoinHolder<T, C> {
    pub join_type: Sourced<JoinType>,
    /// The table to join to.
    pub target_table: Sourced<T>,
    pub conditions: JoinConditions<C>,
}

pub struct JoinHolderModel<T, C> {
    pub join_type: Sourced<JoinType>,
    pub target_table: Sourced<T>,
    pub conditions: JoinConditionsModel<C>,
}

impl<T: DeepView, C: DeepView> DeepView for JoinHolder<T, C> {
    type V = JoinHolderModel<T::V, C::V>;

    open spec fn deep_view(&self) -> JoinHolderModel<T::V, C::V> {
        JoinHolderModel {
            join_type: self.join_type,
            target_table: self.target_table.deep_view(),
            conditions: self.conditions.deep_view(),
        }
    }
}

} // verus!

verus! {

/// A row limit in numbers.
#[derive(Debug)]
pub enum Limit {
    /// None was given: the default applies.
    Implicit(),
    /// At most this many rows.
    RowCount(usize),
    /// Skip `start` rows, then take at most `end` rows.
    Range(std::ops::Range<usize>),
}

/// The SQL text of a limit: 10 rows when none was given.
pub open spec fn limit_value_text(l: Limit) -> Seq<char> {
    match l {
        Limit::Implicit() => "10"@,
        Limit::RowCount(n) => crate::engine::rendering::query_rendering::decimal_text(n as nat),
        Limit::Range(r) => crate::engine::rendering::query_rendering::decimal_text(r.start as nat)
            + ", "@ + crate::engine::rendering::query_rendering::decimal_text(r.end as nat),
    }
}

impl Limit {
    /// The SQL text of the limit.
    pub fn to_sql(&self) -> (r: String)
        ensures
            r@ == limit_value_text(*self),
    {
        let mut out = String::new();
        match self {
            Limit::Implicit() => out.append("10"),
            Limit::RowCount(n) => crate::engine::rendering::query_rendering::write_decimal(&mut out, *n),
            Limit::Range(r) => {
                crate::engine::rendering::query_rendering::write_decimal(&mut out, r.start);
                out.append(", ");
                crate::engine::rendering::query_rendering::write_decimal(&mut out, r.end);
            },
        }
        proof {
            assert(out@ =~= limit_value_text(*self));
        }
        out
    }
}

/// Why a pine could not be rendered.
pub enum RenderFailure {
    /// Nothing fits at this position of the input.
    Syntax(int),
    /// The query could not be built.
    Build(crate::engine::query_builder::QueryBuildErrorModel),
}

/// The SQL a pine stands for, given the structure of the database.
pub open spec fn rendered(input: Seq<char>, server: crate::engine::sql::structure::ServerModel) -> Result<
    Seq<char>,
    RenderFailure,
> {
    match crate::engine::syntax::stage4_of_input(input) {
        Err(position) => Err(RenderFailure::Syntax(position)),
        Ok(rep) => match crate::engine::query_builder::stage5::stage5_query(input, rep, server) {
            Err(e) => Err(RenderFailure::Build(e)),
            Ok(q) => Ok(crate::engine::rendering::query_rendering::query_text(q) + ";"@),
        },
    }
}

/// Turns a pine into SQL.
pub fn render(input: &str, server: &crate::engine::sql::structure::Server) -> (r: Result<
    String,
    crate::error::Error,
>)
    ensures
        match r {
            Ok(sql) => rendered(input@, server.deep_view()) == Ok::<_, RenderFailure>(sql@),
            Err(e) => match *e.0 {
                crate::error::ErrorKind::SyntaxError(se) => rendered(input@, server.deep_view())
                    == Err::<Seq<char>, _>(RenderFailure::Syntax(se.position as int)),
                crate::error::ErrorKind::QueryBuildError(qe) => rendered(input@, server.deep_view())
                    == Err::<Seq<char>, _>(RenderFailure::Build(qe.deep_view())),
                _ => false,
            },
        },
{
    let pine = crate::engine::syntax::parse_to_stage4(input)?;
    let query = crate::engine::query_builder::build_query(pine, server)?;
    Ok(crate::engine::rendering::query_rendering::render_query(query))
}

} // verus!

verus! {

/// Without a limit pine, a query returns at most 10 rows: its SQL ends with `LIMIT 10;`.
pub proof fn lemma_default_limit(input: Seq<char>, server: crate::engine::sql::structure::ServerModel)
    ensures
        rendered(input, server) matches Ok(sql) ==> (crate::engine::syntax::stage4_of_input(input) matches Ok(
            rep,
        ) && rep.limit.it is Implicit ==> sql.len() >= 9 && sql.subrange(
            sql.len() - 9,
            sql.len() as int,
        ) == "LIMIT 10;"@),
{
    if let Ok(rep) = crate::engine::syntax::stage4_of_input(input) {
        if let Ok(q) = crate::engine::query_builder::stage5::stage5_query(input, rep, server) {
            assert(q.limit == rep.limit);
            crate::engine::rendering::query_rendering::lemma_implicit_limit_text(q);
        }
    }
}

} // verus!

verus! {

impl From<std::ops::Range<usize>> for Position {
    fn from(range: std::ops::Range<usize>) -> (r: Position) {
        Position { start: range.start, end: range.end }
    }
}

impl vstd::std_specs::convert::FromSpecImpl<std::ops::Range<usize>> for Position {
    open spec fn obeys_from_spec() -> bool {
        true
    }

    open spec fn from_spec(range: std::ops::Range<usize>) -> Position {
        Position { start: range.start, end: range.end }
    }
}

impl From<&Position> for Source {
    fn from(value: &Position) -> (r: Source) {
        Source::Input(*value)
    }
}

impl vstd::std_specs::convert::FromSpecImpl<&Position> for Source {
    open spec fn obeys_from_spec() -> bool {
        true
    }

    open spec fn from_spec(value: &Position) -> Source {
        Source::Input(*value)
    }
}

} // verus!

verus! {

/// The shape of a pine's SQL: it starts with `SELECT `, its second line starts with `FROM `, its
/// last line starts with `LIMIT `, and it ends with `;`. This holds unless what the query selects
/// holds a line break, which only a string literal in the pine can. A pine that cannot be read
/// gives no SQL.
pub proof fn lemma_rendered_shape(input: Seq<char>, server: crate::engine::sql::structure::ServerModel)
    requires
        crate::engine::syntax::stage4_of_input(input) matches Ok(rep) ==> (
        crate::engine::query_builder::stage5::stage5_query(input, rep, server) matches Ok(q)
            ==> crate::engine::rendering::query_rendering::without_line_break(
            crate::engine::rendering::query_rendering::select_text(q.select, q.from.it, q.joins.len() > 0),
        )),
    ensures
        rendered(input, server) matches Ok(sql) ==> {
            &&& crate::engine::rendering::query_rendering::starts_with(sql, "SELECT "@)
            &&& crate::engine::rendering::query_rendering::second_line_starts_with(sql, "FROM "@)
            &&& crate::engine::rendering::query_rendering::last_line_starts_with(sql, "LIMIT "@)
            &&& sql.last() == ';'
        },
        crate::engine::syntax::stage4_of_input(input) is Err ==> rendered(input, server) is Err,
{
    if let Ok(rep) = crate::engine::syntax::stage4_of_input(input) {
        if let Ok(q) = crate::engine::query_builder::stage5::stage5_query(input, rep, server) {
            crate::engine::syntax::lemma_parsed_limit_of_numbers(input);
            assert(q.limit == rep.limit);
            crate::engine::rendering::query_rendering::lemma_limit_text_one_line(q.limit.it);
            crate::engine::rendering::query_rendering::lemma_query_text_shape(q);
        }
    }
}

} // verus!

verus! {

/// Mapping with the identity keeps the value and its source.
pub proof fn lemma_map_identity<T>(s: Sourced<T>)
    ensures
        s.mapped(|x: T| x) == s,
{
}

/// Mapping with `f` then with `g` is mapping with `g` after `f`; the source is kept throughout.
pub proof fn lemma_map_composition<T, U, D>(s: Sourced<T>, f: spec_fn(T) -> U, g: spec_fn(U) -> D)
    ensures
        s.mapped(f).mapped(g) == s.mapped(|x: T| g(f(x))),
        s.mapped(f).mapped(g).source == s.source,
{
}

/// Mapping by reference is mapping the value itself: what `map_ref` gives is what `map` gives
/// on the same value with the mapper applied to a reference to it.
pub proof fn lemma_map_ref_is_map<T, D>(s: Sourced<T>, f: spec_fn(&T) -> D)
    ensures
        s.mapped_ref(f) == s.mapped(|x: T| f(&x)),
{
}

} // verus!
