//! Pine language input parsing
//!
//! The pine language looks like this:
//! ```ignore
//!     some_table | another_table_to_be_joined | s: column_name count(1) | g: column_name
//! ```
//! `s:` is shorthand for `select:` and `g:` is shorthand for `group:`.
//!
//! Parsing happens in stages:
//! - stage 2 reads the text into a list of "pines", one per `|`-separated part;
//! - stage 3 gives every pine the implicit data that comes from the pines before it;
//! - stage 4 gathers the pines into one structure describing the whole query.
pub mod stage2;
pub mod stage3;
pub mod stage4;

use crate::engine::{LiteralValueHolder, Source, Sourced};
use vstd::prelude::*;

verus! {

/// Something the user may or may not have written down.
#[derive(Clone, Copy, Debug, Default, PartialEq)]
pub enum OptionalInput<T> {
    #[default]
    Implicit,
    Specified(T),
}

impl<T: DeepView> DeepView for OptionalInput<T> {
    type V = OptionalInput<T::V>;

    open spec fn deep_view(&self) -> OptionalInput<T::V> {
        match self {
            OptionalInput::Implicit => OptionalInput::Implicit,
            OptionalInput::Specified(t) => OptionalInput::Specified(t.deep_view()),
        }
    }
}

impl<T> OptionalInput<T> {
    /// The specified value, or the alternative when nothing was specified.
    pub fn or<Alt: Into<T>>(self, alternative: Alt) -> (r: T)
        ensures
            match self {
                OptionalInput::Implicit => call_ensures(Alt::into, (alternative,), r),
                OptionalInput::Specified(inner) => r == inner,
            },
    {
        match self {
            OptionalInput::Implicit => alternative.into(),
            OptionalInput::Specified(inner) => inner,
        }
    }

    /// The specified value; there must be one.
    pub fn unwrap(&self) -> (r: &T)
        requires
            self is Specified,
        ensures
            *r == self->Specified_0,
    {
        match self {
            OptionalInput::Specified(value) => value,
            OptionalInput::Implicit => vstd::pervasive::unreached(),
        }
    }
}

/// A name from the input: of a database, a table, a column or a function.
#[derive(Clone, Copy, Debug, PartialEq, Eq)]
pub struct SqlIdentifierInput<'a> {
    pub name: &'a str,
}

impl DeepView for SqlIdentifierInput<'_> {
    type V = Seq<char>;

    open spec fn deep_view(&self) -> Seq<char> {
        self.name@
    }
}

impl SqlIdentifierInput<'_> {
    /// The identifier's text.
    pub fn as_ref(&self) -> (r: &str)
        ensures
            r@ == self.name@,
    {
        self.name
    }
}

#[derive(Clone, Debug, Copy, PartialEq)]
pub struct TableInput<'a> {
    pub database: OptionalInput<Sourced<SqlIdentifierInput<'a>>>,
    pub table: Sourced<SqlIdentifierInput<'a>>,
}

/// The mathematical counterpart of a [`TableInput`].
pub struct TableInputModel {
    pub database: OptionalInput<Sourced<Seq<char>>>,
    pub table: Sourced<Seq<char>>,
}

impl DeepView for TableInput<'_> {
    type V = TableInputModel;

    open spec fn deep_view(&self) -> TableInputModel {
        TableInputModel { database: self.database.deep_view(), table: self.table.deep_view() }
    }
}

pub type Stage2LiteralValue<'a> = LiteralValueHolder<&'a str>;

#[derive(Debug)]
pub enum Computation<'a> {
    Column(Sourced<ColumnInput<'a>>),
    FunctionCall(Sourced<FunctionCall<'a>>),
    Value(Sourced<Stage2LiteralValue<'a>>),
}

#[derive(Clone, Copy, Debug)]
pub struct ColumnInput<'a> {
    /// Only known when the column name was qualified in the input.
    pub table: OptionalInput<Sourced<TableInput<'a>>>,
    pub column: Sourced<SqlIdentifierInput<'a>>,
}

pub struct ColumnInputModel {
    pub table: OptionalInput<Sourced<TableInputModel>>,
    pub column: Sourced<Seq<char>>,
}

impl DeepView for ColumnInput<'_> {
    type V = ColumnInputModel;

    open spec fn deep_view(&self) -> ColumnInputModel {
        ColumnInputModel { table: self.table.deep_view(), column: self.column.deep_view() }
    }
}

/// A function call such as `count(1)`.
///
/// A Computation can contain a FunctionCall can contain multiple Computations: the params
/// live on the heap, in a Vec.
#[derive(Debug)]
pub struct FunctionCall<'a> {
    pub fn_name: Sourced<SqlIdentifierInput<'a>>,
    pub params: Vec<Sourced<Computation<'a>>>,
}

pub enum ComputationModel {
    Column(Sourced<ColumnInputModel>),
    FunctionCall(Sourced<FunctionCallModel>),
    Value(Sourced<LiteralValueHolder<Seq<char>>>),
}

pub struct FunctionCallModel {
    pub fn_name: Sourced<Seq<char>>,
    pub params: Seq<Sourced<ComputationModel>>,
}

pub open spec fn computation_model(c: Computation) -> ComputationModel
    decreases c,
{
    match c {
        Computation::Column(col) => ComputationModel::Column(col.deep_view()),
        Computation::Value(v) => ComputationModel::Value(v.deep_view()),
        Computation::FunctionCall(f) => ComputationModel::FunctionCall(
            Sourced {
                it: FunctionCallModel {
                    fn_name: f.it.fn_name.deep_view(),
                    params: computations_model(f.it.params@),
                },
                source: f.source,
            },
        ),
    }
}

pub open spec fn computations_model(ps: Seq<Sourced<Computation>>) -> Seq<
    Sourced<ComputationModel>,
>
    decreases ps,
{
    if ps.len() == 0 {
        Seq::empty()
    } else {
        computations_model(ps.drop_last()).push(
            Sourced { it: computation_model(ps.last().it), source: ps.last().source },
        )
    }
}

impl DeepView for Computation<'_> {
    type V = ComputationModel;

    open spec fn deep_view(&self) -> ComputationModel {
        computation_model(*self)
    }
}

impl DeepView for FunctionCall<'_> {
    type V = FunctionCallModel;

    open spec fn deep_view(&self) -> FunctionCallModel {
        FunctionCallModel {
            fn_name: self.fn_name.deep_view(),
            params: computations_model(self.params@),
        }
    }
}

pub proof fn lemma_computations_model_len(ps: Seq<Sourced<Computation>>)
    ensures
        computations_model(ps).len() == ps.len(),
    decreases ps.len(),
{
    if ps.len() > 0 {
        lemma_computations_model_len(ps.drop_last());
    }
}

pub proof fn lemma_computations_model_index(ps: Seq<Sourced<Computation>>, k: int)
    requires
        0 <= k < ps.len(),
    ensures
        computations_model(ps)[k] == (Sourced {
            it: computation_model(ps[k].it),
            source: ps[k].source,
        }),
    decreases ps.len(),
{
    lemma_computations_model_len(ps.drop_last());
    if k < ps.len() - 1 {
        lemma_computations_model_index(ps.drop_last(), k);
    }
}

pub proof fn lemma_computations_model_prepend(x: Sourced<Computation>, ps: Seq<Sourced<Computation>>)
    ensures
        computations_model(seq![x] + ps) == seq![
            Sourced { it: computation_model(x.it), source: x.source },
        ] + computations_model(ps),
{
    let all = seq![x] + ps;
    lemma_computations_model_len(all);
    lemma_computations_model_len(ps);
    assert forall|k: int| 0 <= k < all.len() implies computations_model(all)[k] == (seq![
        Sourced { it: computation_model(x.it), source: x.source },
    ] + computations_model(ps))[k] by {
        lemma_computations_model_index(all, k);
        if k > 0 {
            lemma_computations_model_index(ps, k - 1);
        }
    }
    assert(computations_model(all) =~= seq![
        Sourced { it: computation_model(x.it), source: x.source },
    ] + computations_model(ps));
}


/// Whether two pieces of text are the same.
pub fn str_eq(a: &str, b: &str) -> (r: bool)
    ensures
        r == (a@ == b@),
{
    let n = a.unicode_len();
    if n != b.unicode_len() {
        return false;
    }
    let mut i: usize = 0;
    while i < n
        invariant
            n == a@.len(),
            n == b@.len(),
            i <= n,
            forall|j: int| 0 <= j < i ==> a@[j] == b@[j],
        decreases n - i,
    {
        if a.get_char(i) != b.get_char(i) {
            return false;
        }
        i += 1;
    }
    assert(a@ =~= b@);
    true
}

/// Whether two sourced identifiers are the same name from the same place.
pub fn same_identifier(a: &Sourced<SqlIdentifierInput>, b: &Sourced<SqlIdentifierInput>) -> (r: bool)
    ensures
        r == (a.deep_view() == b.deep_view()),
{
    a.source == b.source && str_eq(a.it.name, b.it.name)
}

/// Whether two sourced tables are the same table from the same place.
pub fn same_table(a: &Sourced<TableInput>, b: &Sourced<TableInput>) -> (r: bool)
    ensures
        r == (a.deep_view() == b.deep_view()),
{
    let same_database = match (&a.it.database, &b.it.database) {
        (OptionalInput::Implicit, OptionalInput::Implicit) => true,
        (OptionalInput::Specified(x), OptionalInput::Specified(y)) => same_identifier(x, y),
        _ => false,
    };
    a.source == b.source && same_database && same_identifier(&a.it.table, &b.it.table)
}

} // verus!

verus! {

/// The stage 4 representation of a pine, or the position (in bytes) of the first character
/// that could not be read.
pub open spec fn stage4_of_input(input: Seq<char>) -> Result<
    crate::engine::syntax::stage4::Stage4RepModel,
    int,
> {
    match crate::engine::syntax::stage2::p_root(input) {
        Ok(pines) => Ok(
            crate::engine::syntax::stage4::stage4_of(
                crate::engine::syntax::stage3::stage3_of(pines),
            ),
        ),
        Err(position) => Err(crate::engine::byte_position(input, position) as int),
    }
}

/// Reads a pine into the structure the query is built from.
pub fn parse_to_stage4(input: &str) -> (r: Result<
    crate::engine::syntax::stage4::Stage4Rep,
    crate::error::Error,
>)
    ensures
        match r {
            Ok(rep) => rep.input == input && stage4_of_input(input@) == Ok::<_, int>(
                rep.deep_view(),
            ),
            Err(e) => match *e.0 {
                crate::error::ErrorKind::SyntaxError(se) => stage4_of_input(input@) == Err::<
                    crate::engine::syntax::stage4::Stage4RepModel,
                    _,
                >(se.position as int),
                _ => false,
            },
        },
{
    let stage2 = match crate::engine::syntax::stage2::parse_stage2(input) {
        Ok(stage2) => stage2,
        Err(e) => {
            return Err(crate::error::Error::new(crate::error::ErrorKind::SyntaxError(e)));
        },
    };
    proof {
        crate::engine::syntax::stage3::lemma_parsed_pines_well_formed(input@);
    }
    let stage3 = crate::engine::syntax::stage3::Stage3Rep::from(stage2);
    Ok(crate::engine::syntax::stage4::Stage4Rep::from(stage3))
}

} // verus!

verus! {

proof fn lemma_pines_positions(s: Seq<char>, i: int)
    requires
        0 <= i <= s.len(),
    ensures
        match crate::engine::syntax::stage2::p_pines(s, i) {
            Ok((_, e)) => i <= e <= s.len(),
            Err(at) => 0 <= at <= s.len(),
        },
    decreases s.len() - i,
{
    let j = crate::engine::syntax::stage2::skip_ws(s, i);
    crate::engine::syntax::stage2::lemma_skip_ws_bounds(s, i);
    if 0 <= i <= j < s.len() && s[j] == '|' {
        crate::engine::syntax::stage2::lemma_skip_ws_bounds(s, j + 1);
        let k = crate::engine::syntax::stage2::skip_ws(s, j + 1);
        match crate::engine::syntax::stage2::p_pine(s, k) {
            None => {},
            Some((_, e)) => if i < e <= s.len() {
                lemma_pines_positions(s, e);
            },
        }
    }
}

/// Reading fails at a character of the input, or at its end.
pub proof fn lemma_root_error_within_input(s: Seq<char>)
    ensures
        crate::engine::syntax::stage2::p_root(s) matches Err(at) ==> 0 <= at <= s.len(),
{
    crate::engine::syntax::stage2::lemma_skip_ws_bounds(s, 0);
    let start = crate::engine::syntax::stage2::skip_ws(s, 0);
    if let Some((_, e1)) = crate::engine::syntax::stage2::p_base(s, start) {
        lemma_base_end(s, start);
        lemma_pines_positions(s, e1);
        if let Ok((_, e2)) = crate::engine::syntax::stage2::p_pines(s, e1) {
            crate::engine::syntax::stage2::lemma_skip_ws_bounds(s, e2);
        }
    }
}

/// A syntax error points at the first byte of a character of the input, or at its end.
pub proof fn lemma_syntax_error_within_input(input: Seq<char>)
    ensures
        stage4_of_input(input) matches Err(position) ==> exists|p: int|
            0 <= p <= input.len() && position == #[trigger] crate::engine::byte_position(input, p),
{
    lemma_root_error_within_input(input);
}

proof fn lemma_more_end<T>(
    s: Seq<char>,
    i: int,
    item: spec_fn(Seq<char>, int) -> Option<(T, int)>,
)
    requires
        0 <= i <= s.len(),
    ensures
        i <= crate::engine::syntax::stage2::p_more(s, i, item).1 <= s.len(),
    decreases s.len() - i,
{
    let j = crate::engine::syntax::stage2::skip_ws(s, i);
    if 0 <= i < j <= s.len() {
        if let Some((_, e)) = item(s, j) {
            if j < e <= s.len() {
                lemma_more_end(s, e, item);
            }
        }
    }
}

proof fn lemma_name_in_input(s: Seq<char>, i: int)
    requires
        0 <= i <= s.len(),
    ensures
        crate::engine::syntax::stage2::p_name(s, i) matches Some((name, e)) ==> i < e <= s.len()
            && name.it == s.subrange(i, e) && name.source == crate::engine::input_source(s, i, e),
{
    if 0 <= i < s.len() {
        crate::engine::syntax::stage2::lemma_run_end_bounds(
            s,
            i + 1,
            crate::engine::syntax::stage2::CharClass::Name,
        );
    }
}

proof fn lemma_base_end(s: Seq<char>, i: int)
    requires
        0 <= i <= s.len(),
    ensures
        crate::engine::syntax::stage2::p_base(s, i) matches Some((base, e)) ==> i <= e <= s.len()
            && base.it is Base && {
            let table = base.it->Base_table.it.table;
            exists|a: int, b: int|
                #![trigger s.subrange(a, b)]
                0 <= a <= b <= s.len() && table.it == s.subrange(a, b) && table.source
                    == crate::engine::input_source(s, a, b)
        },
{
    let j = match crate::engine::syntax::stage2::prefix_end(s, i, "from:"@, "f:"@) {
        Some(e) => {
            crate::engine::syntax::stage2::lemma_skip_ws_bounds(s, e);
            crate::engine::syntax::stage2::skip_ws(s, e)
        },
        None => i,
    };
    lemma_name_in_input(s, j);
    if let Some((first, e1)) = crate::engine::syntax::stage2::p_name(s, j) {
        if e1 < s.len() {
            lemma_name_in_input(s, e1 + 1);
        }
        if let Some((table, e)) = crate::engine::syntax::stage2::p_table(s, j) {
            let (conditions, e2) = crate::engine::syntax::stage2::p_more(
                s,
                e,
                crate::engine::syntax::stage2::condition_item(),
            );
            lemma_more_end(s, e, crate::engine::syntax::stage2::condition_item());
            if e1 < s.len() && s[e1] == '.' && crate::engine::syntax::stage2::p_name(s, e1 + 1) is Some {
                let (second, f) = crate::engine::syntax::stage2::p_name(s, e1 + 1)->Some_0;
                assert(table.it.table.it == s.subrange(e1 + 1, f));
            } else {
                assert(table.it.table.it == s.subrange(j, e1));
            }
        }
    }
}

/// The table a pine reads from is named by the input itself, between the byte positions its
/// source gives.
pub proof fn lemma_from_table_is_in_input(input: Seq<char>)
    requires
        input.len() <= usize::MAX,
    ensures
        stage4_of_input(input) matches Ok(rep) ==> rep.from.it.table.source matches Source::Input(
            p,
        ) && exists|a: int, b: int|
            #![trigger input.subrange(a, b)]
            0 <= a <= b <= input.len() && p.start == crate::engine::byte_position(input, a)
                && p.end == crate::engine::byte_position(input, b) && rep.from.it.table.it
                == input.subrange(a, b),
{
    let s = input;
    crate::engine::syntax::stage2::lemma_skip_ws_bounds(s, 0);
    let start = crate::engine::syntax::stage2::skip_ws(s, 0);
    if let Some((base, e1)) = crate::engine::syntax::stage2::p_base(s, start) {
        lemma_base_end(s, start);
        if let Ok(pines) = crate::engine::syntax::stage2::p_root(s) {
            let table = base.it->Base_table.it.table;
            let (a, b) = choose|a: int, b: int|
                #![trigger s.subrange(a, b)]
                0 <= a <= b <= s.len() && table.it == s.subrange(a, b) && table.source
                    == crate::engine::input_source(s, a, b);
            crate::engine::syntax::stage3::lemma_parsed_pines_well_formed(s);
            assert(pines[0] == base);
            let prev = crate::engine::syntax::stage3::base_table(pines);
            let (out, next) = crate::engine::syntax::stage3::stage3_pine(pines[0], prev);
            assert(crate::engine::syntax::stage3::stage3_of(pines)[0] == out[0]);
        }
    }
}

} // verus!

verus! {

// ---------------------------------------------------------------------------------------------
// Limits are numbers

proof fn lemma_run_in_class(s: Seq<char>, i: int, class: crate::engine::syntax::stage2::CharClass)
    requires
        0 <= i <= s.len(),
    ensures
        forall|k: int|
            i <= k < crate::engine::syntax::stage2::run_end(s, i, class)
                ==> crate::engine::syntax::stage2::in_class(#[trigger] s[k], class),
    decreases s.len() - i,
{
    if i < s.len() && crate::engine::syntax::stage2::in_class(s[i], class) {
        lemma_run_in_class(s, i + 1, class);
    }
}

proof fn lemma_number_one_line(s: Seq<char>, i: int)
    requires
        0 <= i <= s.len(),
    ensures
        crate::engine::syntax::stage2::p_number(s, i) matches Some((n, _))
            ==> crate::engine::rendering::query_rendering::number_without_line_break(n.it),
{
    let d = if 0 <= i < s.len() && s[i] == '-' {
        i + 1
    } else {
        i
    };
    if 0 <= d < s.len() && crate::engine::syntax::stage2::is_digit(s[d]) {
        crate::engine::syntax::stage2::lemma_run_end_bounds(s, d + 1, crate::engine::syntax::stage2::CharClass::DigitOrUnderscore);
        lemma_run_in_class(s, d + 1, crate::engine::syntax::stage2::CharClass::DigitOrUnderscore);
        let e1 = crate::engine::syntax::stage2::run_end(s, d + 1, crate::engine::syntax::stage2::CharClass::DigitOrUnderscore);
        if e1 + 1 < s.len() && s[e1] == '.' && crate::engine::syntax::stage2::is_digit(s[e1 + 1]) {
            crate::engine::syntax::stage2::lemma_run_end_bounds(s, e1 + 2, crate::engine::syntax::stage2::CharClass::Digit);
            lemma_run_in_class(s, e1 + 2, crate::engine::syntax::stage2::CharClass::Digit);
        }
        let n = crate::engine::syntax::stage2::p_number(s, i)->Some_0.0.it->Number_0;
        assert forall|k: int| 0 <= k < n.len() implies n[k] != '\n' by {
            assert(n[k] == s[i + k]);
        }
    }
}

proof fn lemma_limit_pine_numbers(s: Seq<char>, i: int)
    requires
        0 <= i <= s.len(),
    ensures
        crate::engine::syntax::stage2::p_limit_pine(s, i) matches Some((p, _)) ==> p.it is Limit
            && crate::engine::rendering::query_rendering::limit_of_numbers(p.it->Limit_0.it),
{
    if let Some(j) = crate::engine::syntax::stage2::prefix_end(s, i, "limit:"@, "l:"@) {
        crate::engine::syntax::stage2::lemma_skip_ws_bounds(s, j);
        lemma_number_one_line(s, crate::engine::syntax::stage2::skip_ws(s, j));
        if let Some((first, e1)) = crate::engine::syntax::stage2::p_number(s, crate::engine::syntax::stage2::skip_ws(s, j)) {
            crate::engine::syntax::stage2::lemma_run_end_bounds(
                s,
                crate::engine::syntax::stage2::skip_ws(s, j) + 1,
                crate::engine::syntax::stage2::CharClass::DigitOrUnderscore,
            );
            lemma_number_end(s, crate::engine::syntax::stage2::skip_ws(s, j));
            crate::engine::syntax::stage2::lemma_skip_ws_bounds(s, e1);
            lemma_number_one_line(s, crate::engine::syntax::stage2::skip_ws(s, e1));
        }
    }
}

proof fn lemma_number_end(s: Seq<char>, i: int)
    requires
        0 <= i <= s.len(),
    ensures
        crate::engine::syntax::stage2::p_number(s, i) matches Some((_, e)) ==> i <= e <= s.len(),
{
    let d = if 0 <= i < s.len() && s[i] == '-' {
        i + 1
    } else {
        i
    };
    if 0 <= d < s.len() && crate::engine::syntax::stage2::is_digit(s[d]) {
        crate::engine::syntax::stage2::lemma_run_end_bounds(s, d + 1, crate::engine::syntax::stage2::CharClass::DigitOrUnderscore);
        let e1 = crate::engine::syntax::stage2::run_end(s, d + 1, crate::engine::syntax::stage2::CharClass::DigitOrUnderscore);
        if e1 + 1 < s.len() && s[e1] == '.' && crate::engine::syntax::stage2::is_digit(s[e1 + 1]) {
            crate::engine::syntax::stage2::lemma_run_end_bounds(s, e1 + 2, crate::engine::syntax::stage2::CharClass::Digit);
        }
    }
}

/// Whether every limit pine among the pines is made of numbers.
pub open spec fn stage2_limits_of_numbers(ps: Seq<Sourced<crate::engine::syntax::stage2::Stage2PineModel>>) -> bool {
    forall|k: int|
        0 <= k < ps.len() && (#[trigger] ps[k]).it is Limit
            ==> crate::engine::rendering::query_rendering::limit_of_numbers(ps[k].it->Limit_0.it)
}

/// Whether every limit pine among the pines is made of numbers.
pub open spec fn stage3_limits_of_numbers(ps: Seq<Sourced<crate::engine::syntax::stage3::Stage3PineModel>>) -> bool {
    forall|k: int|
        0 <= k < ps.len() && (#[trigger] ps[k]).it is Limit
            ==> crate::engine::rendering::query_rendering::limit_of_numbers(ps[k].it->Limit_0.it)
}

proof fn lemma_pine_numbers(s: Seq<char>, i: int)
    requires
        0 <= i <= s.len(),
    ensures
        crate::engine::syntax::stage2::p_pine(s, i) matches Some((p, _)) ==> (p.it is Limit
            ==> crate::engine::rendering::query_rendering::limit_of_numbers(p.it->Limit_0.it)),
{
    lemma_limit_pine_numbers(s, i);
}

proof fn lemma_pines_numbers(s: Seq<char>, i: int)
    requires
        0 <= i <= s.len(),
    ensures
        crate::engine::syntax::stage2::p_pines(s, i) matches Ok((ps, _)) ==> stage2_limits_of_numbers(ps),
    decreases s.len() - i,
{
    let j = crate::engine::syntax::stage2::skip_ws(s, i);
    crate::engine::syntax::stage2::lemma_skip_ws_bounds(s, i);
    if 0 <= i <= j < s.len() && s[j] == '|' {
        crate::engine::syntax::stage2::lemma_skip_ws_bounds(s, j + 1);
        let k = crate::engine::syntax::stage2::skip_ws(s, j + 1);
        lemma_pine_numbers(s, k);
        match crate::engine::syntax::stage2::p_pine(s, k) {
            None => {},
            Some((pine, e)) => if i < e <= s.len() {
                lemma_pines_numbers(s, e);
                if let Ok((rest, _)) = crate::engine::syntax::stage2::p_pines(s, e) {
                    let all = seq![pine] + rest;
                    assert forall|m: int| 0 <= m < all.len() && (#[trigger] all[m]).it is Limit implies
                        crate::engine::rendering::query_rendering::limit_of_numbers(all[m].it->Limit_0.it) by {
                        if m > 0 {
                            assert(all[m] == rest[m - 1]);
                        }
                    }
                }
            },
        }
    } else {
        assert(Seq::<Sourced<crate::engine::syntax::stage2::Stage2PineModel>>::empty().len() == 0);
    }
}

proof fn lemma_stage3_numbers(
    ps: Seq<Sourced<crate::engine::syntax::stage2::Stage2PineModel>>,
    previous: Sourced<TableInputModel>,
)
    requires
        stage2_limits_of_numbers(ps),
    ensures
        stage3_limits_of_numbers(crate::engine::syntax::stage3::stage3_pines(ps, previous)),
    decreases ps.len(),
{
    if ps.len() > 0 {
        let (out, next) = crate::engine::syntax::stage3::stage3_pine(ps[0], previous);
        assert forall|k: int| 0 <= k < ps.drop_first().len() && (#[trigger] ps.drop_first()[k]).it is Limit implies
            crate::engine::rendering::query_rendering::limit_of_numbers(ps.drop_first()[k].it->Limit_0.it) by {
            assert(ps.drop_first()[k] == ps[k + 1]);
        }
        lemma_stage3_numbers(ps.drop_first(), next);
        let rest = crate::engine::syntax::stage3::stage3_pines(ps.drop_first(), next);
        let all = out + rest;
        assert(ps[0].it is Limit ==> crate::engine::rendering::query_rendering::limit_of_numbers(ps[0].it->Limit_0.it));
        assert forall|k: int| 0 <= k < all.len() && (#[trigger] all[k]).it is Limit implies
            crate::engine::rendering::query_rendering::limit_of_numbers(all[k].it->Limit_0.it) by {
            if k >= out.len() {
                assert(all[k] == rest[k - out.len()]);
            }
        }
    }
}

proof fn lemma_fold_numbers(
    ps: Seq<Sourced<crate::engine::syntax::stage3::Stage3PineModel>>,
    st: crate::engine::syntax::stage4::Stage4State,
)
    requires
        stage3_limits_of_numbers(ps),
        crate::engine::rendering::query_rendering::limit_of_numbers(st.limit.it),
    ensures
        crate::engine::rendering::query_rendering::limit_of_numbers(
            crate::engine::syntax::stage4::stage4_fold(ps, st).limit.it,
        ),
    decreases ps.len(),
{
    if ps.len() > 0 {
        assert forall|k: int| 0 <= k < ps.drop_last().len() && (#[trigger] ps.drop_last()[k]).it is Limit implies
            crate::engine::rendering::query_rendering::limit_of_numbers(ps.drop_last()[k].it->Limit_0.it) by {
            assert(ps.drop_last()[k] == ps[k]);
        }
        lemma_fold_numbers(ps.drop_last(), st);
        assert(ps.last() == ps[ps.len() - 1]);
    }
}

/// The limit a pine gives is made of numbers; when none is given, it is the implicit default.
pub proof fn lemma_parsed_limit_of_numbers(input: Seq<char>)
    ensures
        stage4_of_input(input) matches Ok(rep)
            ==> crate::engine::rendering::query_rendering::limit_of_numbers(rep.limit.it),
{
    let s = input;
    crate::engine::syntax::stage2::lemma_skip_ws_bounds(s, 0);
    let start = crate::engine::syntax::stage2::skip_ws(s, 0);
    if let Some((base, e1)) = crate::engine::syntax::stage2::p_base(s, start) {
        lemma_base_end(s, start);
        lemma_pines_numbers(s, e1);
        if let Ok(pines) = crate::engine::syntax::stage2::p_root(s) {
            let rest = crate::engine::syntax::stage2::p_pines(s, e1)->Ok_0.0;
            assert forall|m: int| 0 <= m < pines.len() && (#[trigger] pines[m]).it is Limit implies
                crate::engine::rendering::query_rendering::limit_of_numbers(pines[m].it->Limit_0.it) by {
                if m > 0 {
                    assert(pines[m] == rest[m - 1]);
                }
            }
            crate::engine::syntax::stage3::lemma_parsed_pines_well_formed(s);
            let ps3 = crate::engine::syntax::stage3::stage3_of(pines);
            lemma_stage3_numbers(pines, crate::engine::syntax::stage3::base_table(pines));
            lemma_fold_numbers(ps3, crate::engine::syntax::stage4::stage4_start(ps3[0].it->From_table));
        }
    }
}

} // verus!
