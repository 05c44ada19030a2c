//! Stage 2 reads the input text into a list of "pines", one per `|`-separated part.
//!
//! The grammar, where `ws` is any run of spaces, tabs or line breaks:
//! ```text
//! root        = ws? base (ws? "|" ws? pine)* ws? END
//! base        = (("from:" | "f:") ws?)? table (ws condition)*
//! pine        = select | limit | join | filter | order | group | compound_join
//! select      = ("select:" | "s:") ws? selectable (ws selectable)*
//! group       = ("group:" | "g:") ws? selectable (ws selectable)*
//! filter      = ("where:" | "w:") ws? condition (ws condition)*
//! order       = ("order:" | "o:") ws? ordering (ws ordering)*
//! ordering    = selectable (ws ("desc" | "asc"))?
//! limit       = ("limit:" | "l:") ws? number (ws number)?
//! join        = ("join:" | "j:") ws? table (ws condition)*
//! compound_join = table (ws condition)*
//! table       = name "." name | name
//! selectable  = condition | computation
//! condition   = computation ws "is" ws ("not" ws)? "null"
//!             | computation ws? comparison ws? computation
//! comparison  = "!=" | ">=" | "<=" | "=" | ">" | "<"
//! computation = name "(" ws? (computation (ws? "," ws? computation)*)? ws? ")"
//!             | name "." name "." name | name "." name | name
//!             | number | string
//! number      = "-"? digit (digit | "_")* ("." digit+)?
//! string      = "'" (any but "'")* "'" | '"' (any but '"')* '"'
//! name        = (letter | "_") (letter | digit | "_")*
//! ```
//! Keywords are matched without regard to case and may not be followed by a name character.
//! Alternatives are tried in order, and the first that matches is taken.
use crate::engine::syntax::{
    ColumnInput, ColumnInputModel, Computation, ComputationModel, FunctionCall,
    FunctionCallModel, OptionalInput, SqlIdentifierInput, TableInput, TableInputModel,
    Stage2LiteralValue,
};
use crate::engine::{
    BinaryConditionHolder, Comparison, ConditionHolder, JoinConditions,
    JoinConditionsModel, JoinHolder, JoinHolderModel, JoinType, LimitHolder,
    LiteralValueHolder, OrderDirection, OrderHolder, Position, SelectableHolder, Source,
    Sourced, UnaryConditionHolder,
};
use vstd::prelude::*;

verus! {

// ---------------------------------------------------------------------------------------------
// Characters

pub open spec fn is_letter(c: char) -> bool {
    ('a' <= c && c <= 'z') || ('A' <= c && c <= 'Z')
}

pub open spec fn is_digit(c: char) -> bool {
    '0' <= c && c <= '9'
}

pub open spec fn is_name_start(c: char) -> bool {
    is_letter(c) || c == '_'
}

pub open spec fn is_name_char(c: char) -> bool {
    is_name_start(c) || is_digit(c)
}

pub open spec fn is_space(c: char) -> bool {
    c == ' ' || c == '\t' || c == '\n' || c == '\r'
}

/// The kinds of character runs the grammar skips over.
#[derive(Clone, Copy)]
pub enum CharClass {
    Space,
    Name,
    Digit,
    DigitOrUnderscore,
}

pub open spec fn in_class(c: char, class: CharClass) -> bool {
    match class {
        CharClass::Space => is_space(c),
        CharClass::Name => is_name_char(c),
        CharClass::Digit => is_digit(c),
        CharClass::DigitOrUnderscore => is_digit(c) || c == '_',
    }
}

/// The end of the run of characters of a class that starts at `i`.
pub open spec fn run_end(s: Seq<char>, i: int, class: CharClass) -> int
    decreases s.len() - i,
{
    if 0 <= i < s.len() && in_class(s[i], class) {
        run_end(s, i + 1, class)
    } else {
        i
    }
}

/// The first position at or after `i` that is not white space.
pub open spec fn skip_ws(s: Seq<char>, i: int) -> int {
    run_end(s, i, CharClass::Space)
}

/// Whether the text `t` stands at position `i`.
pub open spec fn has_text(s: Seq<char>, i: int, t: Seq<char>) -> bool {
    0 <= i && i + t.len() <= s.len() && s.subrange(i, i + t.len()) == t
}

pub open spec fn is_lower(c: char) -> bool {
    'a' <= c && c <= 'z'
}

/// The same letter, ignoring case; `k` is a lower case keyword letter.
pub open spec fn same_letter(c: char, k: char) -> bool {
    c == k || (is_lower(k) && c as u32 + 32 == k as u32)
}

/// Whether the keyword `k` (lower case) stands at `i`, in any case, not followed by a name character.
pub open spec fn has_keyword(s: Seq<char>, i: int, k: Seq<char>) -> bool {
    &&& 0 <= i
    &&& i + k.len() <= s.len()
    &&& forall|j: int| 0 <= j < k.len() ==> same_letter(#[trigger] s[i + j], k[j])
    &&& !(i + k.len() < s.len() && is_name_char(s[i + k.len()]))
}

/// The characters of the input, kept beside the input itself so that they can be read by index.
pub struct Cursor<'a> {
    pub input: &'a str,
    pub chars: Vec<char>,
    /// Where each character starts, and where the text ends, in bytes.
    pub offsets: Vec<usize>,
}

impl<'a> Cursor<'a> {
    pub open spec fn wf(&self) -> bool {
        &&& self.chars@ == self.input@
        &&& self.input@.len() <= usize::MAX
        &&& self.offsets@.len() == self.input@.len() + 1
        &&& forall|i: int|
            0 <= i <= self.input@.len() ==> #[trigger] self.offsets@[i]
                == crate::engine::byte_position(self.input@, i)
    }

    pub open spec fn text(&self) -> Seq<char> {
        self.input@
    }

    pub fn new(input: &'a str) -> (r: Cursor<'a>)
        ensures
            r.wf(),
            r.input == input,
    {
        let mut chars: Vec<char> = Vec::new();
        let mut offsets: Vec<usize> = Vec::new();
        let n = input.unicode_len();
        let mut i: usize = 0;
        while i < n
            invariant
                n == input@.len(),
                i <= n,
                chars@ == input@.subrange(0, i as int),
                offsets@.len() == i,
                forall|j: int| 0 <= j < i ==> #[trigger] offsets@[j] == crate::engine::byte_position(input@, j),
            decreases n - i,
        {
            chars.push(input.get_char(i));
            offsets.push(input.substring_char(0, i).len());
            i += 1;
        }
        offsets.push(input.substring_char(0, n).len());
        assert(input@.subrange(0, n as int) =~= input@);
        Cursor { input, chars, offsets }
    }

    /// The source of the text between the characters `start` and `end`.
    pub fn source(&self, start: usize, end: usize) -> (r: Source)
        requires
            self.wf(),
            start <= self.text().len(),
            end <= self.text().len(),
        ensures
            r == crate::engine::input_source(self.text(), start as int, end as int),
    {
        Source::Input(Position { start: self.offsets[start], end: self.offsets[end] })
    }

    pub fn len(&self) -> (r: usize)
        requires
            self.wf(),
        ensures
            r == self.text().len(),
    {
        self.chars.len()
    }

    /// The character at `i`, when there is one.
    pub fn at(&self, i: usize) -> (r: Option<char>)
        requires
            self.wf(),
        ensures
            r == (if i < self.text().len() {
                Some(self.text()[i as int])
            } else {
                None::<char>
            }),
    {
        if i < self.chars.len() {
            Some(self.chars[i])
        } else {
            None
        }
    }

    /// Whether the character at `i` is `c`.
    pub fn is(&self, i: usize, c: char) -> (r: bool)
        requires
            self.wf(),
        ensures
            r == (i < self.text().len() && self.text()[i as int] == c),
    {
        i < self.chars.len() && self.chars[i] == c
    }

    pub fn run_end(&self, i: usize, class: CharClass) -> (r: usize)
        requires
            self.wf(),
            i <= self.text().len(),
        ensures
            r == run_end(self.text(), i as int, class),
            i <= r <= self.text().len(),
    {
        let mut j = i;
        while j < self.chars.len() && char_in_class(self.chars[j], class)
            invariant
                self.wf(),
                i <= j <= self.text().len(),
                run_end(self.text(), i as int, class) == run_end(self.text(), j as int, class),
            decreases self.text().len() - j,
        {
            j += 1;
        }
        j
    }

    pub fn skip_ws(&self, i: usize) -> (r: usize)
        requires
            self.wf(),
            i <= self.text().len(),
        ensures
            r == skip_ws(self.text(), i as int),
            i <= r <= self.text().len(),
    {
        self.run_end(i, CharClass::Space)
    }

    pub fn has_text(&self, i: usize, t: &str) -> (r: bool)
        requires
            self.wf(),
        ensures
            r == has_text(self.text(), i as int, t@),
    {
        let n = t.unicode_len();
        if n > self.chars.len() || i > self.chars.len() - n {
            return false;
        }
        let mut k: usize = 0;
        while k < n
            invariant
                self.wf(),
                n == t@.len(),
                i + n <= self.text().len(),
                i + n <= self.chars.len(),
                k <= n,
                forall|j: int| 0 <= j < k ==> self.text()[i + j] == t@[j],
            decreases n - k,
        {
            if self.chars[i + k] != t.get_char(k) {
                assert(self.text().subrange(i as int, i + n)[k as int] != t@[k as int]);
                return false;
            }
            k += 1;
        }
        assert(self.text().subrange(i as int, i + n) =~= t@);
        true
    }

    pub fn has_keyword(&self, i: usize, k: &str) -> (r: bool)
        requires
            self.wf(),
        ensures
            r == has_keyword(self.text(), i as int, k@),
    {
        let n = k.unicode_len();
        if n > self.chars.len() || i > self.chars.len() - n {
            return false;
        }
        let mut j: usize = 0;
        while j < n
            invariant
                self.wf(),
                n == k@.len(),
                i + n <= self.text().len(),
                i + n <= self.chars.len(),
                j <= n,
                forall|m: int| 0 <= m < j ==> same_letter(#[trigger] self.text()[i + m], k@[m]),
            decreases n - j,
        {
            let c = self.chars[i + j];
            let kc = k.get_char(j);
            let same = c == kc || ('a' <= kc && kc <= 'z' && c as u32 == (kc as u32) - 32);
            if !same {
                return false;
            }
            j += 1;
        }
        !(i + n < self.chars.len() && char_in_class(self.chars[i + n], CharClass::Name))
    }
}

pub fn char_in_class(c: char, class: CharClass) -> (r: bool)
    ensures
        r == in_class(c, class),
{
    match class {
        CharClass::Space => c == ' ' || c == '\t' || c == '\n' || c == '\r',
        CharClass::Name => ('a' <= c && c <= 'z') || ('A' <= c && c <= 'Z') || c == '_' || ('0'
            <= c && c <= '9'),
        CharClass::Digit => '0' <= c && c <= '9',
        CharClass::DigitOrUnderscore => ('0' <= c && c <= '9') || c == '_',
    }
}


// ---------------------------------------------------------------------------------------------
// Names, tables, columns, literal values

/// Whether an executable parse result is the one the grammar gives.
pub open spec fn parsed<T: DeepView>(r: Option<(T, usize)>, m: Option<(T::V, int)>) -> bool {
    match r {
        Some((v, e)) => m == Some((v.deep_view(), e as int)),
        None => m is None,
    }
}

/// Whether an executable parse result ends within the input, after where it started.
pub open spec fn advances<T>(r: Option<(T, usize)>, i: int, len: int) -> bool {
    r matches Some((_, e)) ==> i < e <= len
}

pub open spec fn p_name(s: Seq<char>, i: int) -> Option<(Sourced<Seq<char>>, int)> {
    if 0 <= i < s.len() && is_name_start(s[i]) {
        let e = run_end(s, i + 1, CharClass::Name);
        Some((Sourced { it: s.subrange(i, e), source: crate::engine::input_source(s, i, e) }, e))
    } else {
        None
    }
}

pub open spec fn p_table(s: Seq<char>, i: int) -> Option<(Sourced<TableInputModel>, int)> {
    match p_name(s, i) {
        None => None,
        Some((first, e1)) => {
            let simple = Some(
                (
                    Sourced {
                        it: TableInputModel { database: OptionalInput::Implicit, table: first },
                        source: first.source,
                    },
                    e1,
                ),
            );
            if e1 < s.len() && s[e1] == '.' {
                match p_name(s, e1 + 1) {
                    Some((second, e2)) => Some(
                        (
                            Sourced {
                                it: TableInputModel {
                                    database: OptionalInput::Specified(first),
                                    table: second,
                                },
                                source: crate::engine::input_source(s, i, e2),
                            },
                            e2,
                        ),
                    ),
                    None => simple,
                }
            } else {
                simple
            }
        },
    }
}

/// `name.name.name` (database, table, column), `name.name` (table, column) or `name` (column).
///
/// A table given with its database is sourced from the database name to the table name; a
/// table given alone is sourced by the whole `table.column` text.
pub open spec fn p_column(s: Seq<char>, i: int) -> Option<(Sourced<ColumnInputModel>, int)> {
    match p_name(s, i) {
        None => None,
        Some((first, e1)) => {
            let simple = Some(
                (
                    Sourced {
                        it: ColumnInputModel { table: OptionalInput::Implicit, column: first },
                        source: first.source,
                    },
                    e1,
                ),
            );
            if e1 < s.len() && s[e1] == '.' {
                match p_name(s, e1 + 1) {
                    None => simple,
                    Some((second, e2)) => {
                        let two = Some(
                            (
                                Sourced {
                                    it: ColumnInputModel {
                                        table: OptionalInput::Specified(
                                            Sourced {
                                                it: TableInputModel {
                                                    database: OptionalInput::Implicit,
                                                    table: first,
                                                },
                                                source: crate::engine::input_source(s, i, e2),
                                            },
                                        ),
                                        column: second,
                                    },
                                    source: crate::engine::input_source(s, i, e2),
                                },
                                e2,
                            ),
                        );
                        if e2 < s.len() && s[e2] == '.' {
                            match p_name(s, e2 + 1) {
                                None => two,
                                Some((third, e3)) => Some(
                                    (
                                        Sourced {
                                            it: ColumnInputModel {
                                                table: OptionalInput::Specified(
                                                    Sourced {
                                                        it: TableInputModel {
                                                            database: OptionalInput::Specified(
                                                                first,
                                                            ),
                                                            table: second,
                                                        },
                                                        source: crate::engine::input_source(s, i, e2),
                                                    },
                                                ),
                                                column: third,
                                            },
                                            source: crate::engine::input_source(s, i, e3),
                                        },
                                        e3,
                                    ),
                                ),
                            }
                        } else {
                            two
                        }
                    },
                }
            } else {
                simple
            }
        },
    }
}

/// `-`? digit (digit | `_`)* (`.` digit+)?
pub open spec fn p_number(s: Seq<char>, i: int) -> Option<
    (Sourced<LiteralValueHolder<Seq<char>>>, int),
> {
    let d = if 0 <= i < s.len() && s[i] == '-' {
        i + 1
    } else {
        i
    };
    if 0 <= d < s.len() && is_digit(s[d]) {
        let e1 = run_end(s, d + 1, CharClass::DigitOrUnderscore);
        let e = if e1 + 1 < s.len() && s[e1] == '.' && is_digit(s[e1 + 1]) {
            run_end(s, e1 + 2, CharClass::Digit)
        } else {
            e1
        };
        Some(
            (
                Sourced { it: LiteralValueHolder::Number(s.subrange(i, e)), source: crate::engine::input_source(s, i, e) },
                e,
            ),
        )
    } else {
        None
    }
}

/// The first position at or after `i` holding `c`, or the length of `s` when there is none.
pub open spec fn find_char(s: Seq<char>, i: int, c: char) -> int
    decreases s.len() - i,
{
    if 0 <= i < s.len() && s[i] != c {
        find_char(s, i + 1, c)
    } else if i < 0 {
        s.len() as int
    } else {
        i
    }
}

/// A quoted string; the value keeps its quotes.
pub open spec fn p_string(s: Seq<char>, i: int) -> Option<
    (Sourced<LiteralValueHolder<Seq<char>>>, int),
> {
    if 0 <= i < s.len() && (s[i] == '\'' || s[i] == '"') {
        let close = find_char(s, i + 1, s[i]);
        if close < s.len() {
            Some(
                (
                    Sourced {
                        it: LiteralValueHolder::String(s.subrange(i, close + 1)),
                        source: crate::engine::input_source(s, i, close + 1),
                    },
                    close + 1,
                ),
            )
        } else {
            None
        }
    } else {
        None
    }
}

pub open spec fn p_literal(s: Seq<char>, i: int) -> Option<
    (Sourced<LiteralValueHolder<Seq<char>>>, int),
> {
    match p_number(s, i) {
        Some(r) => Some(r),
        None => p_string(s, i),
    }
}

pub proof fn lemma_run_end_bounds(s: Seq<char>, i: int, class: CharClass)
    requires
        0 <= i <= s.len(),
    ensures
        i <= run_end(s, i, class) <= s.len(),
    decreases s.len() - i,
{
    if i < s.len() && in_class(s[i], class) {
        lemma_run_end_bounds(s, i + 1, class);
    }
}

impl<'a> Cursor<'a> {
    /// The text between `start` and `end`, sourced by its position.
    pub fn sourced_text(&self, start: usize, end: usize) -> (r: Sourced<&'a str>)
        requires
            self.wf(),
            start <= end <= self.text().len(),
        ensures
            r.it@ == self.text().subrange(start as int, end as int),
            r.source == crate::engine::input_source(self.text(), start as int, end as int),
    {
        Sourced {
            it: self.input.substring_char(start, end),
            source: self.source(start, end),
        }
    }

    pub fn name(&self, i: usize) -> (r: Option<(Sourced<SqlIdentifierInput<'a>>, usize)>)
        requires
            self.wf(),
        ensures
            parsed(r, p_name(self.text(), i as int)),
            advances(r, i as int, self.text().len() as int),
    {
        match self.at(i) {
            Some(c) => {
                if ('a' <= c && c <= 'z') || ('A' <= c && c <= 'Z') || c == '_' {
                    let e = self.run_end(i + 1, CharClass::Name);
                    let t = self.sourced_text(i, e);
                    Some((Sourced { it: SqlIdentifierInput { name: t.it }, source: t.source }, e))
                } else {
                    None
                }
            },
            None => None,
        }
    }

    pub fn table(&self, i: usize) -> (r: Option<(Sourced<TableInput<'a>>, usize)>)
        requires
            self.wf(),
        ensures
            parsed(r, p_table(self.text(), i as int)),
            advances(r, i as int, self.text().len() as int),
    {
        match self.name(i) {
            None => None,
            Some((first, e1)) => {
                let simple = Some(
                    (
                        Sourced {
                            it: TableInput { database: OptionalInput::Implicit, table: first },
                            source: first.source,
                        },
                        e1,
                    ),
                );
                if self.is(e1, '.') {
                    match self.name(e1 + 1) {
                        Some((second, e2)) => Some(
                            (
                                Sourced {
                                    it: TableInput {
                                        database: OptionalInput::Specified(first),
                                        table: second,
                                    },
                                    source: self.source(i, e2),
                                },
                                e2,
                            ),
                        ),
                        None => simple,
                    }
                } else {
                    simple
                }
            },
        }
    }

    pub fn column(&self, i: usize) -> (r: Option<(Sourced<ColumnInput<'a>>, usize)>)
        requires
            self.wf(),
        ensures
            parsed(r, p_column(self.text(), i as int)),
            advances(r, i as int, self.text().len() as int),
    {
        let (first, e1) = match self.name(i) {
            None => return None,
            Some(found) => found,
        };
        let simple = Some(
            (
                Sourced {
                    it: ColumnInput { table: OptionalInput::Implicit, column: first },
                    source: first.source,
                },
                e1,
            ),
        );
        if !self.is(e1, '.') {
            return simple;
        }
        let (second, e2) = match self.name(e1 + 1) {
            None => return simple,
            Some(found) => found,
        };
        let two_source = self.source(i, e2);
        if self.is(e2, '.') {
            if let Some((third, e3)) = self.name(e2 + 1) {
                return Some(
                    (
                        Sourced {
                            it: ColumnInput {
                                table: OptionalInput::Specified(
                                    Sourced {
                                        it: TableInput {
                                            database: OptionalInput::Specified(first),
                                            table: second,
                                        },
                                        source: two_source,
                                    },
                                ),
                                column: third,
                            },
                            source: self.source(i, e3),
                        },
                        e3,
                    ),
                );
            }
        }
        Some(
            (
                Sourced {
                    it: ColumnInput {
                        table: OptionalInput::Specified(
                            Sourced {
                                it: TableInput { database: OptionalInput::Implicit, table: first },
                                source: two_source,
                            },
                        ),
                        column: second,
                    },
                    source: two_source,
                },
                e2,
            ),
        )
    }

    pub fn number(&self, i: usize) -> (r: Option<(Sourced<Stage2LiteralValue<'a>>, usize)>)
        requires
            self.wf(),
        ensures
            parsed(r, p_number(self.text(), i as int)),
            advances(r, i as int, self.text().len() as int),
    {
        let d = if self.is(i, '-') {
            i + 1
        } else {
            i
        };
        match self.at(d) {
            Some(c) => {
                if '0' <= c && c <= '9' {
                    let e1 = self.run_end(d + 1, CharClass::DigitOrUnderscore);
                    let e = if e1 < self.len() && e1 + 1 < self.len() && self.is(e1, '.') && char_in_class(
                        self.chars[e1 + 1],
                        CharClass::Digit,
                    ) {
                        self.run_end(e1 + 2, CharClass::Digit)
                    } else {
                        e1
                    };
                    let t = self.sourced_text(i, e);
                    Some((Sourced { it: LiteralValueHolder::Number(t.it), source: t.source }, e))
                } else {
                    None
                }
            },
            None => None,
        }
    }

    pub fn find_char(&self, i: usize, c: char) -> (r: usize)
        requires
            self.wf(),
            i <= self.text().len(),
        ensures
            r == find_char(self.text(), i as int, c),
            i <= r <= self.text().len(),
    {
        let mut j = i;
        while j < self.chars.len() && self.chars[j] != c
            invariant
                self.wf(),
                i <= j <= self.text().len(),
                find_char(self.text(), i as int, c) == find_char(self.text(), j as int, c),
            decreases self.text().len() - j,
        {
            j += 1;
        }
        j
    }

    pub fn string(&self, i: usize) -> (r: Option<(Sourced<Stage2LiteralValue<'a>>, usize)>)
        requires
            self.wf(),
        ensures
            parsed(r, p_string(self.text(), i as int)),
            advances(r, i as int, self.text().len() as int),
    {
        match self.at(i) {
            Some(q) => {
                if q == '\'' || q == '"' {
                    let close = self.find_char(i + 1, q);
                    if close < self.len() {
                        let t = self.sourced_text(i, close + 1);
                        Some(
                            (Sourced { it: LiteralValueHolder::String(t.it), source: t.source }, close + 1),
                        )
                    } else {
                        None
                    }
                } else {
                    None
                }
            },
            None => None,
        }
    }

    pub fn literal(&self, i: usize) -> (r: Option<(Sourced<Stage2LiteralValue<'a>>, usize)>)
        requires
            self.wf(),
        ensures
            parsed(r, p_literal(self.text(), i as int)),
            advances(r, i as int, self.text().len() as int),
    {
        match self.number(i) {
            Some(found) => Some(found),
            None => self.string(i),
        }
    }
}


// ---------------------------------------------------------------------------------------------
// Computations, conditions and selectables

pub type Stage2Condition<'a> = ConditionHolder<Computation<'a>>;

pub type Stage2Selectable<'a> = SelectableHolder<Stage2Condition<'a>, Computation<'a>>;

pub type Stage2Order<'a> = OrderHolder<Stage2Selectable<'a>>;

pub type Stage2Limit<'a> = LimitHolder<Stage2LiteralValue<'a>>;

pub type Stage2BinaryCondition<'a> = BinaryConditionHolder<Computation<'a>>;

pub type Stage2UnaryCondition<'a> = UnaryConditionHolder<Computation<'a>>;

pub type ConditionModel = ConditionHolder<ComputationModel>;

pub type SelectableModel = SelectableHolder<ConditionModel, ComputationModel>;

/// Where the text `t` ends when it stands at `i`.
pub open spec fn text_end(s: Seq<char>, i: int, t: Seq<char>) -> Option<int> {
    if has_text(s, i, t) {
        Some(i + t.len())
    } else {
        None
    }
}

/// Where the keyword `k` ends when it stands at `i`.
pub open spec fn keyword_end(s: Seq<char>, i: int, k: Seq<char>) -> Option<int> {
    if has_keyword(s, i, k) {
        Some(i + k.len())
    } else {
        None
    }
}

pub proof fn lemma_skip_ws_bounds(s: Seq<char>, i: int)
    requires
        0 <= i <= s.len(),
    ensures
        i <= skip_ws(s, i) <= s.len(),
{
    lemma_run_end_bounds(s, i, CharClass::Space);
}

pub open spec fn p_computation(s: Seq<char>, i: int) -> Option<(Sourced<ComputationModel>, int)>
    decreases s.len() - i, 1int,
{
    if i < 0 || i > s.len() {
        None
    } else {
        match p_function_call(s, i) {
            Some((f, e)) => Some(
                (Sourced { it: ComputationModel::FunctionCall(f), source: f.source }, e),
            ),
            None => match p_column(s, i) {
                Some((c, e)) => Some(
                    (Sourced { it: ComputationModel::Column(c), source: c.source }, e),
                ),
                None => match p_literal(s, i) {
                    Some((v, e)) => Some(
                        (Sourced { it: ComputationModel::Value(v), source: v.source }, e),
                    ),
                    None => None,
                },
            },
        }
    }
}

pub open spec fn p_function_call(s: Seq<char>, i: int) -> Option<
    (Sourced<FunctionCallModel>, int),
>
    decreases s.len() - i, 0int,
{
    if i < 0 || i > s.len() {
        None
    } else {
        match p_name(s, i) {
            None => None,
            Some((name, e)) => if e < s.len() && s[e] == '(' {
                proof {
                    lemma_run_end_bounds(s, i + 1, CharClass::Name);
                    lemma_skip_ws_bounds(s, e + 1);
                }
                let j = skip_ws(s, e + 1);
                if j < s.len() && s[j] == ')' {
                    Some(
                        (
                            Sourced {
                                it: FunctionCallModel { fn_name: name, params: Seq::empty() },
                                source: crate::engine::input_source(s, i, j + 1),
                            },
                            j + 1,
                        ),
                    )
                } else {
                    match p_params(s, j) {
                        None => None,
                        Some((params, k)) => {
                            let k2 = skip_ws(s, k);
                            if k2 < s.len() && s[k2] == ')' {
                                Some(
                                    (
                                        Sourced {
                                            it: FunctionCallModel { fn_name: name, params },
                                            source: crate::engine::input_source(s, i, k2 + 1),
                                        },
                                        k2 + 1,
                                    ),
                                )
                            } else {
                                None
                            }
                        },
                    }
                }
            } else {
                None
            },
        }
    }
}

/// One or more computations, separated by commas.
pub open spec fn p_params(s: Seq<char>, j: int) -> Option<
    (Seq<Sourced<ComputationModel>>, int),
>
    decreases s.len() - j, 2int,
{
    if j < 0 || j > s.len() {
        None
    } else {
        match p_computation(s, j) {
            None => None,
            Some((first, e)) => {
                let k = skip_ws(s, e);
                if j < e <= s.len() && 0 <= k < s.len() && s[k] == ',' {
                    proof {
                        lemma_skip_ws_bounds(s, e);
                        lemma_skip_ws_bounds(s, k + 1);
                    }
                    match p_params(s, skip_ws(s, k + 1)) {
                        Some((rest, e2)) => Some((seq![first] + rest, e2)),
                        None => None,
                    }
                } else {
                    Some((seq![first], e))
                }
            },
        }
    }
}

pub open spec fn p_comparison(s: Seq<char>, i: int) -> Option<(Sourced<Comparison>, int)> {
    let found = |c: Comparison, e: int| Some((Sourced { it: c, source: crate::engine::input_source(s, i, e) }, e));
    if let Some(e) = text_end(s, i, "!="@) {
        found(Comparison::NotEquals, e)
    } else if let Some(e) = text_end(s, i, ">="@) {
        found(Comparison::GreaterOrEqual, e)
    } else if let Some(e) = text_end(s, i, "<="@) {
        found(Comparison::LesserOrEqual, e)
    } else if let Some(e) = text_end(s, i, "="@) {
        found(Comparison::Equals, e)
    } else if let Some(e) = text_end(s, i, ">"@) {
        found(Comparison::GreaterThan, e)
    } else if let Some(e) = text_end(s, i, "<"@) {
        found(Comparison::LesserThan, e)
    } else {
        None
    }
}

pub open spec fn p_binary_condition(s: Seq<char>, i: int) -> Option<
    (Sourced<BinaryConditionHolder<ComputationModel>>, int),
> {
    match p_computation(s, i) {
        None => None,
        Some((left, e1)) => match p_comparison(s, skip_ws(s, e1)) {
            None => None,
            Some((comparison, e2)) => match p_computation(s, skip_ws(s, e2)) {
                None => None,
                Some((right, e3)) => Some(
                    (
                        Sourced {
                            it: BinaryConditionHolder { left, comparison, right },
                            source: crate::engine::input_source(s, i, e3),
                        },
                        e3,
                    ),
                ),
            },
        },
    }
}

/// Where the keyword `k` ends, when it comes after at least one white space character.
pub open spec fn keyword_after_ws(s: Seq<char>, i: int, k: Seq<char>) -> Option<int> {
    let j = skip_ws(s, i);
    if i < j {
        keyword_end(s, j, k)
    } else {
        None
    }
}

pub open spec fn p_unary_condition(s: Seq<char>, i: int) -> Option<
    (Sourced<UnaryConditionHolder<ComputationModel>>, int),
> {
    match p_computation(s, i) {
        None => None,
        Some((operand, e1)) => match keyword_after_ws(s, e1, "is"@) {
            None => None,
            Some(e2) => match keyword_after_ws(s, e2, "not"@) {
                Some(e3) => match keyword_after_ws(s, e3, "null"@) {
                    Some(e4) => Some(
                        (
                            Sourced {
                                it: UnaryConditionHolder::IsNotNull(operand),
                                source: crate::engine::input_source(s, i, e4),
                            },
                            e4,
                        ),
                    ),
                    None => None,
                },
                None => match keyword_after_ws(s, e2, "null"@) {
                    Some(e4) => Some(
                        (
                            Sourced {
                                it: UnaryConditionHolder::IsNull(operand),
                                source: crate::engine::input_source(s, i, e4),
                            },
                            e4,
                        ),
                    ),
                    None => None,
                },
            },
        },
    }
}

pub open spec fn p_condition(s: Seq<char>, i: int) -> Option<(Sourced<ConditionModel>, int)> {
    match p_unary_condition(s, i) {
        Some((u, e)) => Some((Sourced { it: ConditionHolder::Unary(u), source: u.source }, e)),
        None => match p_binary_condition(s, i) {
            Some((b, e)) => Some(
                (Sourced { it: ConditionHolder::Binary(b), source: b.source }, e),
            ),
            None => None,
        },
    }
}

pub open spec fn p_selectable(s: Seq<char>, i: int) -> Option<(Sourced<SelectableModel>, int)> {
    match p_condition(s, i) {
        Some((c, e)) => Some(
            (Sourced { it: SelectableHolder::Condition(c), source: c.source }, e),
        ),
        None => match p_computation(s, i) {
            Some((c, e)) => Some(
                (Sourced { it: SelectableHolder::Computation(c), source: c.source }, e),
            ),
            None => None,
        },
    }
}

/// A selectable, optionally followed by a direction; the default direction is descending.
pub open spec fn p_ordering(s: Seq<char>, i: int) -> Option<
    (Sourced<OrderHolder<SelectableModel>>, int),
> {
    match p_selectable(s, i) {
        None => None,
        Some((selectable, e1)) => {
            let j = skip_ws(s, e1);
            let (direction, e) = if let Some(e2) = keyword_after_ws(s, e1, "desc"@) {
                (Sourced { it: OrderDirection::Descending, source: crate::engine::input_source(s, j, e2) }, e2)
            } else if let Some(e2) = keyword_after_ws(s, e1, "asc"@) {
                (Sourced { it: OrderDirection::Ascending, source: crate::engine::input_source(s, j, e2) }, e2)
            } else {
                (Sourced { it: OrderDirection::Descending, source: Source::Implicit }, e1)
            };
            Some((Sourced { it: OrderHolder { selectable, direction }, source: crate::engine::input_source(s, i, e) }, e))
        },
    }
}


pub open spec fn as_int_position(r: Option<usize>) -> Option<int> {
    match r {
        Some(e) => Some(e as int),
        None => None,
    }
}

impl<'a> Cursor<'a> {
    pub fn text_end(&self, i: usize, t: &str) -> (r: Option<usize>)
        requires
            self.wf(),
        ensures
            as_int_position(r) == text_end(self.text(), i as int, t@),
            r matches Some(e) ==> e <= self.text().len(),
    {
        if self.has_text(i, t) {
            Some(i + t.unicode_len())
        } else {
            None
        }
    }

    pub fn keyword_end(&self, i: usize, k: &str) -> (r: Option<usize>)
        requires
            self.wf(),
        ensures
            as_int_position(r) == keyword_end(self.text(), i as int, k@),
            r matches Some(e) ==> e <= self.text().len(),
    {
        if self.has_keyword(i, k) {
            Some(i + k.unicode_len())
        } else {
            None
        }
    }

    pub fn keyword_after_ws(&self, i: usize, k: &str) -> (r: Option<usize>)
        requires
            self.wf(),
            i <= self.text().len(),
        ensures
            as_int_position(r) == keyword_after_ws(self.text(), i as int, k@),
            r matches Some(e) ==> i < e <= self.text().len(),
    {
        let j = self.skip_ws(i);
        if i < j {
            self.keyword_end(j, k)
        } else {
            None
        }
    }

    pub fn computation(&self, i: usize) -> (r: Option<(Sourced<Computation<'a>>, usize)>)
        requires
            self.wf(),
        ensures
            parsed(r, p_computation(self.text(), i as int)),
            advances(r, i as int, self.text().len() as int),
        decreases self.text().len() - i, 1int,
    {
        if i > self.len() {
            return None;
        }
        if let Some((f, e)) = self.function_call(i) {
            let source = f.source;
            return Some((Sourced { it: Computation::FunctionCall(f), source }, e));
        }
        if let Some((c, e)) = self.column(i) {
            let source = c.source;
            return Some((Sourced { it: Computation::Column(c), source }, e));
        }
        if let Some((v, e)) = self.literal(i) {
            let source = v.source;
            return Some((Sourced { it: Computation::Value(v), source }, e));
        }
        None
    }

    pub fn function_call(&self, i: usize) -> (r: Option<(Sourced<FunctionCall<'a>>, usize)>)
        requires
            self.wf(),
        ensures
            parsed(r, p_function_call(self.text(), i as int)),
            advances(r, i as int, self.text().len() as int),
        decreases self.text().len() - i, 0int,
    {
        if i > self.len() {
            return None;
        }
        let (fn_name, e) = match self.name(i) {
            None => return None,
            Some(found) => found,
        };
        if !self.is(e, '(') {
            return None;
        }
        let j = self.skip_ws(e + 1);
        if self.is(j, ')') {
            return Some(
                (
                    Sourced {
                        it: FunctionCall { fn_name, params: Vec::new() },
                        source: self.source(i, j + 1),
                    },
                    j + 1,
                ),
            );
        }
        match self.params(j) {
            None => None,
            Some((params, k)) => {
                let k2 = self.skip_ws(k);
                if self.is(k2, ')') {
                    let r = Some(
                        (
                            Sourced {
                                it: FunctionCall { fn_name, params },
                                source: self.source(i, k2 + 1),
                            },
                            k2 + 1,
                        ),
                    );
                    r
                } else {
                    None
                }
            },
        }
    }

    pub fn params(&self, j: usize) -> (r: Option<(Vec<Sourced<Computation<'a>>>, usize)>)
        requires
            self.wf(),
        ensures
            match r {
                Some((v, e)) => p_params(self.text(), j as int) == Some(
                    (crate::engine::syntax::computations_model(v@), e as int),
                ) && j < e <= self.text().len(),
                None => p_params(self.text(), j as int) is None,
            },
        decreases self.text().len() - j, 2int,
    {
        if j > self.len() {
            return None;
        }
        let (first, e) = match self.computation(j) {
            None => return None,
            Some(found) => found,
        };
        let k = self.skip_ws(e);
        if j < e && self.is(k, ',') {
            let k2 = self.skip_ws(k + 1);
            match self.params(k2) {
                Some((rest, e2)) => {
                    let ghost old_rest = rest@;
                    let mut all = rest;
                    all.insert(0, first);
                    proof {
                        assert(all@ =~= seq![first] + old_rest);
                        crate::engine::syntax::lemma_computations_model_prepend(first, old_rest);
                    }
                    Some((all, e2))
                },
                None => None,
            }
        } else {
            let mut all = Vec::new();
            all.push(first);
            proof {
                assert(all@ =~= seq![first]);
                crate::engine::syntax::lemma_computations_model_prepend(first, Seq::empty());
                assert(seq![first] + Seq::<Sourced<Computation>>::empty() =~= seq![first]);
            }
            Some((all, e))
        }
    }

    pub fn comparison(&self, i: usize) -> (r: Option<(Sourced<Comparison>, usize)>)
        requires
            self.wf(),
        ensures
            parsed(r, p_comparison(self.text(), i as int)),
            advances(r, i as int, self.text().len() as int),
    {
        let (c, e) = if let Some(e) = self.text_end(i, "!=") {
            (Comparison::NotEquals, e)
        } else if let Some(e) = self.text_end(i, ">=") {
            (Comparison::GreaterOrEqual, e)
        } else if let Some(e) = self.text_end(i, "<=") {
            (Comparison::LesserOrEqual, e)
        } else if let Some(e) = self.text_end(i, "=") {
            (Comparison::Equals, e)
        } else if let Some(e) = self.text_end(i, ">") {
            (Comparison::GreaterThan, e)
        } else if let Some(e) = self.text_end(i, "<") {
            (Comparison::LesserThan, e)
        } else {
            return None;
        };
        proof {
            reveal_strlit("!=");
            reveal_strlit(">=");
            reveal_strlit("<=");
            reveal_strlit("=");
            reveal_strlit(">");
            reveal_strlit("<");
        }
        Some((Sourced { it: c, source: self.source(i, e) }, e))
    }

    pub fn binary_condition(&self, i: usize) -> (r: Option<
        (Sourced<Stage2BinaryCondition<'a>>, usize),
    >)
        requires
            self.wf(),
        ensures
            parsed(r, p_binary_condition(self.text(), i as int)),
            advances(r, i as int, self.text().len() as int),
    {
        let (left, e1) = match self.computation(i) {
            None => return None,
            Some(found) => found,
        };
        let (comparison, e2) = match self.comparison(self.skip_ws(e1)) {
            None => return None,
            Some(found) => found,
        };
        let (right, e3) = match self.computation(self.skip_ws(e2)) {
            None => return None,
            Some(found) => found,
        };
        Some(
            (
                Sourced {
                    it: BinaryConditionHolder { left, comparison, right },
                    source: self.source(i, e3),
                },
                e3,
            ),
        )
    }

    pub fn unary_condition(&self, i: usize) -> (r: Option<
        (Sourced<Stage2UnaryCondition<'a>>, usize),
    >)
        requires
            self.wf(),
        ensures
            parsed(r, p_unary_condition(self.text(), i as int)),
            advances(r, i as int, self.text().len() as int),
    {
        let (operand, e1) = match self.computation(i) {
            None => return None,
            Some(found) => found,
        };
        let e2 = match self.keyword_after_ws(e1, "is") {
            None => return None,
            Some(e) => e,
        };
        if let Some(e3) = self.keyword_after_ws(e2, "not") {
            match self.keyword_after_ws(e3, "null") {
                Some(e4) => Some(
                    (
                        Sourced {
                            it: UnaryConditionHolder::IsNotNull(operand),
                            source: self.source(i, e4),
                        },
                        e4,
                    ),
                ),
                None => None,
            }
        } else {
            match self.keyword_after_ws(e2, "null") {
                Some(e4) => Some(
                    (
                        Sourced {
                            it: UnaryConditionHolder::IsNull(operand),
                            source: self.source(i, e4),
                        },
                        e4,
                    ),
                ),
                None => None,
            }
        }
    }

    pub fn condition(&self, i: usize) -> (r: Option<(Sourced<Stage2Condition<'a>>, usize)>)
        requires
            self.wf(),
        ensures
            parsed(r, p_condition(self.text(), i as int)),
            advances(r, i as int, self.text().len() as int),
    {
        if let Some((u, e)) = self.unary_condition(i) {
            let source = u.source;
            return Some((Sourced { it: ConditionHolder::Unary(u), source }, e));
        }
        if let Some((b, e)) = self.binary_condition(i) {
            let source = b.source;
            return Some((Sourced { it: ConditionHolder::Binary(b), source }, e));
        }
        None
    }

    pub fn selectable(&self, i: usize) -> (r: Option<(Sourced<Stage2Selectable<'a>>, usize)>)
        requires
            self.wf(),
        ensures
            parsed(r, p_selectable(self.text(), i as int)),
            advances(r, i as int, self.text().len() as int),
    {
        if let Some((c, e)) = self.condition(i) {
            let source = c.source;
            return Some((Sourced { it: SelectableHolder::Condition(c), source }, e));
        }
        if let Some((c, e)) = self.computation(i) {
            let source = c.source;
            return Some((Sourced { it: SelectableHolder::Computation(c), source }, e));
        }
        None
    }

    pub fn ordering(&self, i: usize) -> (r: Option<(Sourced<Stage2Order<'a>>, usize)>)
        requires
            self.wf(),
        ensures
            parsed(r, p_ordering(self.text(), i as int)),
            advances(r, i as int, self.text().len() as int),
    {
        let (selectable, e1) = match self.selectable(i) {
            None => return None,
            Some(found) => found,
        };
        let j = self.skip_ws(e1);
        let (direction, e) = if let Some(e2) = self.keyword_after_ws(e1, "desc") {
            (
                Sourced {
                    it: OrderDirection::Descending,
                    source: self.source(j, e2),
                },
                e2,
            )
        } else if let Some(e2) = self.keyword_after_ws(e1, "asc") {
            (
                Sourced {
                    it: OrderDirection::Ascending,
                    source: self.source(j, e2),
                },
                e2,
            )
        } else {
            (Sourced { it: OrderDirection::Descending, source: Source::Implicit }, e1)
        };
        Some(
            (
                Sourced {
                    it: OrderHolder { selectable, direction },
                    source: self.source(i, e),
                },
                e,
            ),
        )
    }
}


// ---------------------------------------------------------------------------------------------
// Pines

/// Each part of the input between `|` characters is a "pine".
#[derive(Debug)]
pub enum Stage2Pine<'a> {
    /// All pines start with a base pine that can never repeat. This specifies the first
    /// table we'll be working with.
    Base { table: Sourced<TableInput<'a>>, conditions: Vec<Sourced<Stage2Condition<'a>>> },
    /// Selects one or more computations from the previous table.
    Select(Vec<Sourced<Stage2Selectable<'a>>>),
    Limit(Sourced<Stage2Limit<'a>>),
    Order(Vec<Sourced<Stage2Order<'a>>>),
    GroupBy(Vec<Sourced<Stage2Selectable<'a>>>),
    /// "Filters" are what end up being WHERE clauses.
    Filter(Vec<Sourced<Stage2Condition<'a>>>),
    /// Specify exactly how to join another table.
    ExplicitJoin(Sourced<Stage2Join<'a>>),
    /// Join a table, we'll figure out how for you.
    ExplicitAutoJoin(Sourced<Stage2ExplicitAutoJoin<'a>>),
    /// We'll figure out the join, and the conditions act as filters.
    CompoundJoin(Sourced<Stage2CompoundJoin<'a>>),
}

pub type Stage2Join<'a> = JoinHolder<TableInput<'a>, Stage2Condition<'a>>;

#[derive(Debug, Clone, Copy)]
pub struct Stage2ExplicitAutoJoin<'a> {
    pub join_type: Sourced<JoinType>,
    pub target_table: Sourced<TableInput<'a>>,
}

#[derive(Debug)]
pub struct Stage2CompoundJoin<'a> {
    pub join_type: Sourced<JoinType>,
    pub target_table: Sourced<TableInput<'a>>,
    pub where_conditions: Vec<Sourced<Stage2Condition<'a>>>,
}

pub struct Stage2ExplicitAutoJoinModel {
    pub join_type: Sourced<JoinType>,
    pub target_table: Sourced<TableInputModel>,
}

pub struct Stage2CompoundJoinModel {
    pub join_type: Sourced<JoinType>,
    pub target_table: Sourced<TableInputModel>,
    pub where_conditions: Seq<Sourced<ConditionModel>>,
}

pub type LiteralModel = LiteralValueHolder<Seq<char>>;

pub enum Stage2PineModel {
    Base { table: Sourced<TableInputModel>, conditions: Seq<Sourced<ConditionModel>> },
    Select(Seq<Sourced<SelectableModel>>),
    Limit(Sourced<LimitHolder<LiteralModel>>),
    Order(Seq<Sourced<OrderHolder<SelectableModel>>>),
    GroupBy(Seq<Sourced<SelectableModel>>),
    Filter(Seq<Sourced<ConditionModel>>),
    ExplicitJoin(Sourced<JoinHolderModel<TableInputModel, ConditionModel>>),
    ExplicitAutoJoin(Sourced<Stage2ExplicitAutoJoinModel>),
    CompoundJoin(Sourced<Stage2CompoundJoinModel>),
}

impl DeepView for Stage2ExplicitAutoJoin<'_> {
    type V = Stage2ExplicitAutoJoinModel;

    open spec fn deep_view(&self) -> Stage2ExplicitAutoJoinModel {
        Stage2ExplicitAutoJoinModel {
            join_type: self.join_type,
            target_table: self.target_table.deep_view(),
        }
    }
}

impl DeepView for Stage2CompoundJoin<'_> {
    type V = Stage2CompoundJoinModel;

    open spec fn deep_view(&self) -> Stage2CompoundJoinModel {
        Stage2CompoundJoinModel {
            join_type: self.join_type,
            target_table: self.target_table.deep_view(),
            where_conditions: self.where_conditions.deep_view(),
        }
    }
}

impl DeepView for Stage2Pine<'_> {
    type V = Stage2PineModel;

    open spec fn deep_view(&self) -> Stage2PineModel {
        match self {
            Stage2Pine::Base { table, conditions } => Stage2PineModel::Base {
                table: table.deep_view(),
                conditions: conditions.deep_view(),
            },
            Stage2Pine::Select(s) => Stage2PineModel::Select(s.deep_view()),
            Stage2Pine::Limit(l) => Stage2PineModel::Limit(l.deep_view()),
            Stage2Pine::Order(o) => Stage2PineModel::Order(o.deep_view()),
            Stage2Pine::GroupBy(g) => Stage2PineModel::GroupBy(g.deep_view()),
            Stage2Pine::Filter(f) => Stage2PineModel::Filter(f.deep_view()),
            Stage2Pine::ExplicitJoin(j) => Stage2PineModel::ExplicitJoin(j.deep_view()),
            Stage2Pine::ExplicitAutoJoin(j) => Stage2PineModel::ExplicitAutoJoin(j.deep_view()),
            Stage2Pine::CompoundJoin(j) => Stage2PineModel::CompoundJoin(j.deep_view()),
        }
    }
}

/// Zero or more items, each after white space, as long as they parse.
pub open spec fn p_more<T>(s: Seq<char>, i: int, item: spec_fn(Seq<char>, int) -> Option<(T, int)>) -> (
    Seq<T>,
    int,
)
    decreases s.len() - i,
{
    let j = skip_ws(s, i);
    if 0 <= i < j <= s.len() {
        match item(s, j) {
            Some((x, e)) => if j < e <= s.len() {
                let (rest, e2) = p_more(s, e, item);
                (seq![x] + rest, e2)
            } else {
                (Seq::empty(), i)
            },
            None => (Seq::empty(), i),
        }
    } else {
        (Seq::empty(), i)
    }
}

/// One or more items: the first after optional white space, the others each after white space.
pub open spec fn p_some<T>(s: Seq<char>, i: int, item: spec_fn(Seq<char>, int) -> Option<(T, int)>) -> Option<
    (Seq<T>, int),
> {
    match item(s, skip_ws(s, i)) {
        None => None,
        Some((x, e)) => {
            let (rest, e2) = p_more(s, e, item);
            Some((seq![x] + rest, e2))
        },
    }
}

pub open spec fn condition_item() -> spec_fn(Seq<char>, int) -> Option<
    (Sourced<ConditionModel>, int),
> {
    |s: Seq<char>, i: int| p_condition(s, i)
}

pub open spec fn selectable_item() -> spec_fn(Seq<char>, int) -> Option<
    (Sourced<SelectableModel>, int),
> {
    |s: Seq<char>, i: int| p_selectable(s, i)
}

pub open spec fn ordering_item() -> spec_fn(Seq<char>, int) -> Option<
    (Sourced<OrderHolder<SelectableModel>>, int),
> {
    |s: Seq<char>, i: int| p_ordering(s, i)
}

/// Where a pine's prefix (long or short form) ends.
pub open spec fn prefix_end(s: Seq<char>, i: int, long: Seq<char>, short: Seq<char>) -> Option<int> {
    match text_end(s, i, long) {
        Some(e) => Some(e),
        None => text_end(s, i, short),
    }
}

pub open spec fn pine_at(s: Seq<char>, it: Stage2PineModel, i: int, e: int) -> Option<(Sourced<Stage2PineModel>, int)> {
    Some((Sourced { it, source: crate::engine::input_source(s, i, e) }, e))
}

pub open spec fn p_select_pine(s: Seq<char>, i: int) -> Option<(Sourced<Stage2PineModel>, int)> {
    match prefix_end(s, i, "select:"@, "s:"@) {
        None => None,
        Some(j) => match p_some(s, j, selectable_item()) {
            None => None,
            Some((items, e)) => pine_at(s, Stage2PineModel::Select(items), i, e),
        },
    }
}

pub open spec fn p_group_pine(s: Seq<char>, i: int) -> Option<(Sourced<Stage2PineModel>, int)> {
    match prefix_end(s, i, "group:"@, "g:"@) {
        None => None,
        Some(j) => match p_some(s, j, selectable_item()) {
            None => None,
            Some((items, e)) => pine_at(s, Stage2PineModel::GroupBy(items), i, e),
        },
    }
}

pub open spec fn p_filter_pine(s: Seq<char>, i: int) -> Option<(Sourced<Stage2PineModel>, int)> {
    match prefix_end(s, i, "where:"@, "w:"@) {
        None => None,
        Some(j) => match p_some(s, j, condition_item()) {
            None => None,
            Some((items, e)) => pine_at(s, Stage2PineModel::Filter(items), i, e),
        },
    }
}

pub open spec fn p_order_pine(s: Seq<char>, i: int) -> Option<(Sourced<Stage2PineModel>, int)> {
    match prefix_end(s, i, "order:"@, "o:"@) {
        None => None,
        Some(j) => match p_some(s, j, ordering_item()) {
            None => None,
            Some((items, e)) => pine_at(s, Stage2PineModel::Order(items), i, e),
        },
    }
}

pub open spec fn p_limit_pine(s: Seq<char>, i: int) -> Option<(Sourced<Stage2PineModel>, int)> {
    match prefix_end(s, i, "limit:"@, "l:"@) {
        None => None,
        Some(j) => match p_number(s, skip_ws(s, j)) {
            None => None,
            Some((first, e1)) => {
                let k = skip_ws(s, e1);
                let (limit, e) = match p_number(s, k) {
                    Some((second, e2)) => if e1 < k {
                        (LimitHolder::Range { start: first, count: second }, e2)
                    } else {
                        (LimitHolder::RowCount(first), e1)
                    },
                    None => (LimitHolder::RowCount(first), e1),
                };
                pine_at(s, 
                    Stage2PineModel::Limit(Sourced { it: limit, source: crate::engine::input_source(s, i, e) }),
                    i,
                    e,
                )
            },
        },
    }
}

pub open spec fn p_join_pine(s: Seq<char>, i: int) -> Option<(Sourced<Stage2PineModel>, int)> {
    match prefix_end(s, i, "join:"@, "j:"@) {
        None => None,
        Some(j) => match p_table(s, skip_ws(s, j)) {
            None => None,
            Some((target_table, e1)) => {
                let join_type = Sourced { it: JoinType::Left, source: Source::Implicit };
                let (conditions, e) = p_more(s, e1, condition_item());
                if conditions.len() > 0 {
                    pine_at(s, 
                        Stage2PineModel::ExplicitJoin(
                            Sourced {
                                it: JoinHolderModel {
                                    join_type,
                                    target_table,
                                    conditions: JoinConditionsModel::Explicit(conditions),
                                },
                                source: crate::engine::input_source(s, i, e),
                            },
                        ),
                        i,
                        e,
                    )
                } else {
                    pine_at(s, 
                        Stage2PineModel::ExplicitAutoJoin(
                            Sourced {
                                it: Stage2ExplicitAutoJoinModel { join_type, target_table },
                                source: crate::engine::input_source(s, i, e1),
                            },
                        ),
                        i,
                        e1,
                    )
                }
            },
        },
    }
}

pub open spec fn p_compound_join_pine(s: Seq<char>, i: int) -> Option<
    (Sourced<Stage2PineModel>, int),
> {
    match p_table(s, i) {
        None => None,
        Some((target_table, e1)) => {
            let (where_conditions, e) = p_more(s, e1, condition_item());
            pine_at(s, 
                Stage2PineModel::CompoundJoin(
                    Sourced {
                        it: Stage2CompoundJoinModel {
                            join_type: Sourced { it: JoinType::Left, source: Source::Implicit },
                            target_table,
                            where_conditions,
                        },
                        source: crate::engine::input_source(s, i, e),
                    },
                ),
                i,
                e,
            )
        },
    }
}

pub open spec fn p_pine(s: Seq<char>, i: int) -> Option<(Sourced<Stage2PineModel>, int)> {
    if let Some(r) = p_select_pine(s, i) {
        Some(r)
    } else if let Some(r) = p_limit_pine(s, i) {
        Some(r)
    } else if let Some(r) = p_join_pine(s, i) {
        Some(r)
    } else if let Some(r) = p_filter_pine(s, i) {
        Some(r)
    } else if let Some(r) = p_order_pine(s, i) {
        Some(r)
    } else if let Some(r) = p_group_pine(s, i) {
        Some(r)
    } else {
        p_compound_join_pine(s, i)
    }
}

pub open spec fn p_base(s: Seq<char>, i: int) -> Option<(Sourced<Stage2PineModel>, int)> {
    let j = match prefix_end(s, i, "from:"@, "f:"@) {
        Some(e) => skip_ws(s, e),
        None => i,
    };
    match p_table(s, j) {
        None => None,
        Some((table, e1)) => {
            let (conditions, e) = p_more(s, e1, condition_item());
            pine_at(s, Stage2PineModel::Base { table, conditions }, i, e)
        },
    }
}

/// The pines after the base, each after a `|`; on failure, the position that could not be read.
pub open spec fn p_pines(s: Seq<char>, i: int) -> Result<(Seq<Sourced<Stage2PineModel>>, int), int>
    decreases s.len() - i,
{
    let j = skip_ws(s, i);
    if 0 <= i <= j < s.len() && s[j] == '|' {
        let k = skip_ws(s, j + 1);
        match p_pine(s, k) {
            None => Err(k),
            Some((pine, e)) => if i < e <= s.len() {
                match p_pines(s, e) {
                    Ok((rest, e2)) => Ok((seq![pine] + rest, e2)),
                    Err(at) => Err(at),
                }
            } else {
                Err(k)
            },
        }
    } else {
        Ok((Seq::empty(), i))
    }
}

/// The whole input: a base pine, the pines after it, and nothing else.
///
/// On failure, the position of the first character that could not be read.
pub open spec fn p_root(s: Seq<char>) -> Result<Seq<Sourced<Stage2PineModel>>, int> {
    let start = skip_ws(s, 0);
    match p_base(s, start) {
        None => Err(start),
        Some((base, e1)) => match p_pines(s, e1) {
            Err(at) => Err(at),
            Ok((pines, e2)) => {
                let end = skip_ws(s, e2);
                if end == s.len() {
                    Ok(seq![base] + pines)
                } else {
                    Err(end)
                }
            },
        },
    }
}


impl<'a> Cursor<'a> {
    pub fn more_conditions(&self, i: usize) -> (r: (Vec<Sourced<Stage2Condition<'a>>>, usize))
        requires
            self.wf(),
            i <= self.text().len(),
        ensures
            p_more(self.text(), i as int, condition_item()) == (r.0.deep_view(), r.1 as int),
            i <= r.1 <= self.text().len(),
    {
        let ghost s = self.text();
        let mut items: Vec<Sourced<Stage2Condition<'a>>> = Vec::new();
        let mut cur = i;
        assert(items.deep_view() =~= Seq::empty());
        loop
            invariant
                self.wf(),
                s == self.text(),
                i <= cur <= s.len(),
                p_more(s, i as int, condition_item()) == (
                    items.deep_view() + p_more(s, cur as int, condition_item()).0,
                    p_more(s, cur as int, condition_item()).1,
                ),
            decreases s.len() - cur,
        {
            let j = self.skip_ws(cur);
            if cur < j {
                if let Some((x, e)) = self.condition(j) {
                    let ghost before = items.deep_view();
                    let ghost rest = p_more(s, e as int, condition_item());
                    items.push(x);
                    cur = e;
                    proof {
                        assert(items.deep_view() =~= before.push(x.deep_view()));
                        assert(before + (seq![x.deep_view()] + rest.0) =~= before.push(
                            x.deep_view(),
                        ) + rest.0);
                    }
                    continue ;
                }
            }
            proof {
                assert(items.deep_view() + Seq::empty() =~= items.deep_view());
            }
            return (items, cur);
        }
    }

    pub fn some_conditions(&self, i: usize) -> (r: Option<(Vec<Sourced<Stage2Condition<'a>>>, usize)>)
        requires
            self.wf(),
            i <= self.text().len(),
        ensures
            match r {
                Some((v, e)) => p_some(self.text(), i as int, condition_item()) == Some(
                    (v.deep_view(), e as int),
                ) && i < e <= self.text().len(),
                None => p_some(self.text(), i as int, condition_item()) is None,
            },
    {
        let (first, e) = match self.condition(self.skip_ws(i)) {
            None => return None,
            Some(found) => found,
        };
        let (rest, e2) = self.more_conditions(e);
        let ghost rest_view = rest.deep_view();
        let mut all = rest;
        all.insert(0, first);
        proof {
            assert(all.deep_view() =~= seq![first.deep_view()] + rest_view);
        }
        Some((all, e2))
    }

    pub fn more_selectables(&self, i: usize) -> (r: (Vec<Sourced<Stage2Selectable<'a>>>, usize))
        requires
            self.wf(),
            i <= self.text().len(),
        ensures
            p_more(self.text(), i as int, selectable_item()) == (r.0.deep_view(), r.1 as int),
            i <= r.1 <= self.text().len(),
    {
        let ghost s = self.text();
        let mut items: Vec<Sourced<Stage2Selectable<'a>>> = Vec::new();
        let mut cur = i;
        assert(items.deep_view() =~= Seq::empty());
        loop
            invariant
                self.wf(),
                s == self.text(),
                i <= cur <= s.len(),
                p_more(s, i as int, selectable_item()) == (
                    items.deep_view() + p_more(s, cur as int, selectable_item()).0,
                    p_more(s, cur as int, selectable_item()).1,
                ),
            decreases s.len() - cur,
        {
            let j = self.skip_ws(cur);
            if cur < j {
                if let Some((x, e)) = self.selectable(j) {
                    let ghost before = items.deep_view();
                    let ghost rest = p_more(s, e as int, selectable_item());
                    items.push(x);
                    cur = e;
                    proof {
                        assert(items.deep_view() =~= before.push(x.deep_view()));
                        assert(before + (seq![x.deep_view()] + rest.0) =~= before.push(
                            x.deep_view(),
                        ) + rest.0);
                    }
                    continue ;
                }
            }
            proof {
                assert(items.deep_view() + Seq::empty() =~= items.deep_view());
            }
            return (items, cur);
        }
    }

    pub fn some_selectables(&self, i: usize) -> (r: Option<(Vec<Sourced<Stage2Selectable<'a>>>, usize)>)
        requires
            self.wf(),
            i <= self.text().len(),
        ensures
            match r {
                Some((v, e)) => p_some(self.text(), i as int, selectable_item()) == Some(
                    (v.deep_view(), e as int),
                ) && i < e <= self.text().len(),
                None => p_some(self.text(), i as int, selectable_item()) is None,
            },
    {
        let (first, e) = match self.selectable(self.skip_ws(i)) {
            None => return None,
            Some(found) => found,
        };
        let (rest, e2) = self.more_selectables(e);
        let ghost rest_view = rest.deep_view();
        let mut all = rest;
        all.insert(0, first);
        proof {
            assert(all.deep_view() =~= seq![first.deep_view()] + rest_view);
        }
        Some((all, e2))
    }

    pub fn more_orderings(&self, i: usize) -> (r: (Vec<Sourced<Stage2Order<'a>>>, usize))
        requires
            self.wf(),
            i <= self.text().len(),
        ensures
            p_more(self.text(), i as int, ordering_item()) == (r.0.deep_view(), r.1 as int),
            i <= r.1 <= self.text().len(),
    {
        let ghost s = self.text();
        let mut items: Vec<Sourced<Stage2Order<'a>>> = Vec::new();
        let mut cur = i;
        assert(items.deep_view() =~= Seq::empty());
        loop
            invariant
                self.wf(),
                s == self.text(),
                i <= cur <= s.len(),
                p_more(s, i as int, ordering_item()) == (
                    items.deep_view() + p_more(s, cur as int, ordering_item()).0,
                    p_more(s, cur as int, ordering_item()).1,
                ),
            decreases s.len() - cur,
        {
            let j = self.skip_ws(cur);
            if cur < j {
                if let Some((x, e)) = self.ordering(j) {
                    let ghost before = items.deep_view();
                    let ghost rest = p_more(s, e as int, ordering_item());
                    items.push(x);
                    cur = e;
                    proof {
                        assert(items.deep_view() =~= before.push(x.deep_view()));
                        assert(before + (seq![x.deep_view()] + rest.0) =~= before.push(
                            x.deep_view(),
                        ) + rest.0);
                    }
                    continue ;
                }
            }
            proof {
                assert(items.deep_view() + Seq::empty() =~= items.deep_view());
            }
            return (items, cur);
        }
    }

    pub fn some_orderings(&self, i: usize) -> (r: Option<(Vec<Sourced<Stage2Order<'a>>>, usize)>)
        requires
            self.wf(),
            i <= self.text().len(),
        ensures
            match r {
                Some((v, e)) => p_some(self.text(), i as int, ordering_item()) == Some(
                    (v.deep_view(), e as int),
                ) && i < e <= self.text().len(),
                None => p_some(self.text(), i as int, ordering_item()) is None,
            },
    {
        let (first, e) = match self.ordering(self.skip_ws(i)) {
            None => return None,
            Some(found) => found,
        };
        let (rest, e2) = self.more_orderings(e);
        let ghost rest_view = rest.deep_view();
        let mut all = rest;
        all.insert(0, first);
        proof {
            assert(all.deep_view() =~= seq![first.deep_view()] + rest_view);
        }
        Some((all, e2))
    }
}


/// The pines the input was read into, beside the input itself.
#[derive(Debug)]
pub struct Stage2Rep<'a> {
    pub input: &'a str,
    /// Our syntax is formed by a chain of "pines"; the first is always a base pine.
    pub pines: Vec<Sourced<Stage2Pine<'a>>>,
}

/// The input could not be read as a pine; nothing fits at `position` (counted in bytes).
#[derive(Debug, Clone, Copy, PartialEq, Eq)]
pub struct SyntaxError {
    pub position: usize,
}

/// Reads the whole input as a chain of pines.
pub fn parse_stage2<'a>(input: &'a str) -> (r: Result<Stage2Rep<'a>, SyntaxError>)
    ensures
        match r {
            Ok(rep) => rep.input == input && p_root(input@) == Ok::<_, int>(rep.pines.deep_view()),
            Err(error) => (p_root(input@) matches Err(at) && error.position
                == crate::engine::byte_position(input@, at)),
        },
{
    let cursor = Cursor::new(input);
    match cursor.root() {
        Ok(pines) => Ok(Stage2Rep { input, pines }),
        Err(at) => {
            proof {
                crate::engine::syntax::lemma_root_error_within_input(input@);
            }
            Err(SyntaxError { position: cursor.offsets[at] })
        },
    }
}

pub open spec fn pine_found(r: Option<(Sourced<Stage2Pine>, usize)>, m: Option<(Sourced<Stage2PineModel>, int)>, i: int, len: int) -> bool {
    parsed(r, m) && advances(r, i, len)
}

impl<'a> Cursor<'a> {
    pub fn prefix_end(&self, i: usize, long: &str, short: &str) -> (r: Option<usize>)
        requires
            self.wf(),
        ensures
            as_int_position(r) == prefix_end(self.text(), i as int, long@, short@),
            r matches Some(e) ==> e <= self.text().len(),
    {
        match self.text_end(i, long) {
            Some(e) => Some(e),
            None => self.text_end(i, short),
        }
    }

    fn pine(&self, it: Stage2Pine<'a>, i: usize, e: usize) -> (r: Option<(Sourced<Stage2Pine<'a>>, usize)>)
        requires
            self.wf(),
            i <= self.text().len(),
            e <= self.text().len(),
        ensures
            r matches Some((p, end)) && p.it == it && end == e && p.source == crate::engine::input_source(self.text(), i as int, e as int),
    {
        Some((Sourced { it, source: self.source(i, e) }, e))
    }

    pub fn select_pine(&self, i: usize) -> (r: Option<(Sourced<Stage2Pine<'a>>, usize)>)
        requires
            self.wf(),
        ensures
            pine_found(r, p_select_pine(self.text(), i as int), i as int, self.text().len() as int),
    {
        let j = match self.prefix_end(i, "select:", "s:") {
            None => return None,
            Some(j) => j,
        };
        proof { reveal_strlit("select:"); reveal_strlit("s:"); }
        match self.some_selectables(j) {
            None => None,
            Some((items, e)) => self.pine(Stage2Pine::Select(items), i, e),
        }
    }

    pub fn group_pine(&self, i: usize) -> (r: Option<(Sourced<Stage2Pine<'a>>, usize)>)
        requires
            self.wf(),
        ensures
            pine_found(r, p_group_pine(self.text(), i as int), i as int, self.text().len() as int),
    {
        let j = match self.prefix_end(i, "group:", "g:") {
            None => return None,
            Some(j) => j,
        };
        proof { reveal_strlit("group:"); reveal_strlit("g:"); }
        match self.some_selectables(j) {
            None => None,
            Some((items, e)) => self.pine(Stage2Pine::GroupBy(items), i, e),
        }
    }

    pub fn filter_pine(&self, i: usize) -> (r: Option<(Sourced<Stage2Pine<'a>>, usize)>)
        requires
            self.wf(),
        ensures
            pine_found(r, p_filter_pine(self.text(), i as int), i as int, self.text().len() as int),
    {
        let j = match self.prefix_end(i, "where:", "w:") {
            None => return None,
            Some(j) => j,
        };
        proof { reveal_strlit("where:"); reveal_strlit("w:"); }
        match self.some_conditions(j) {
            None => None,
            Some((items, e)) => self.pine(Stage2Pine::Filter(items), i, e),
        }
    }

    pub fn order_pine(&self, i: usize) -> (r: Option<(Sourced<Stage2Pine<'a>>, usize)>)
        requires
            self.wf(),
        ensures
            pine_found(r, p_order_pine(self.text(), i as int), i as int, self.text().len() as int),
    {
        let j = match self.prefix_end(i, "order:", "o:") {
            None => return None,
            Some(j) => j,
        };
        proof { reveal_strlit("order:"); reveal_strlit("o:"); }
        match self.some_orderings(j) {
            None => None,
            Some((items, e)) => self.pine(Stage2Pine::Order(items), i, e),
        }
    }

    pub fn limit_pine(&self, i: usize) -> (r: Option<(Sourced<Stage2Pine<'a>>, usize)>)
        requires
            self.wf(),
        ensures
            pine_found(r, p_limit_pine(self.text(), i as int), i as int, self.text().len() as int),
    {
        let j = match self.prefix_end(i, "limit:", "l:") {
            None => return None,
            Some(j) => j,
        };
        proof { reveal_strlit("limit:"); reveal_strlit("l:"); }
        let (first, e1) = match self.number(self.skip_ws(j)) {
            None => return None,
            Some(found) => found,
        };
        let k = self.skip_ws(e1);
        let (limit, e) = match self.number(k) {
            Some((second, e2)) => if e1 < k {
                (LimitHolder::Range { start: first, count: second }, e2)
            } else {
                (LimitHolder::RowCount(first), e1)
            },
            None => (LimitHolder::RowCount(first), e1),
        };
        self.pine(
            Stage2Pine::Limit(Sourced { it: limit, source: self.source(i, e) }),
            i,
            e,
        )
    }

    pub fn join_pine(&self, i: usize) -> (r: Option<(Sourced<Stage2Pine<'a>>, usize)>)
        requires
            self.wf(),
        ensures
            pine_found(r, p_join_pine(self.text(), i as int), i as int, self.text().len() as int),
    {
        let j = match self.prefix_end(i, "join:", "j:") {
            None => return None,
            Some(j) => j,
        };
        proof { reveal_strlit("join:"); reveal_strlit("j:"); }
        let (target_table, e1) = match self.table(self.skip_ws(j)) {
            None => return None,
            Some(found) => found,
        };
        let join_type = Sourced { it: JoinType::Left, source: Source::Implicit };
        let (conditions, e) = self.more_conditions(e1);
        if conditions.len() > 0 {
            self.pine(
                Stage2Pine::ExplicitJoin(
                    Sourced {
                        it: JoinHolder {
                            join_type,
                            target_table,
                            conditions: JoinConditions::Explicit(conditions),
                        },
                        source: self.source(i, e),
                    },
                ),
                i,
                e,
            )
        } else {
            self.pine(
                Stage2Pine::ExplicitAutoJoin(
                    Sourced {
                        it: Stage2ExplicitAutoJoin { join_type, target_table },
                        source: self.source(i, e1),
                    },
                ),
                i,
                e1,
            )
        }
    }

    pub fn compound_join_pine(&self, i: usize) -> (r: Option<(Sourced<Stage2Pine<'a>>, usize)>)
        requires
            self.wf(),
        ensures
            pine_found(r, p_compound_join_pine(self.text(), i as int), i as int, self.text().len() as int),
    {
        let (target_table, e1) = match self.table(i) {
            None => return None,
            Some(found) => found,
        };
        let (where_conditions, e) = self.more_conditions(e1);
        self.pine(
            Stage2Pine::CompoundJoin(
                Sourced {
                    it: Stage2CompoundJoin {
                        join_type: Sourced { it: JoinType::Left, source: Source::Implicit },
                        target_table,
                        where_conditions,
                    },
                    source: self.source(i, e),
                },
            ),
            i,
            e,
        )
    }

    pub fn any_pine(&self, i: usize) -> (r: Option<(Sourced<Stage2Pine<'a>>, usize)>)
        requires
            self.wf(),
        ensures
            pine_found(r, p_pine(self.text(), i as int), i as int, self.text().len() as int),
    {
        if let Some(r) = self.select_pine(i) {
            return Some(r);
        }
        if let Some(r) = self.limit_pine(i) {
            return Some(r);
        }
        if let Some(r) = self.join_pine(i) {
            return Some(r);
        }
        if let Some(r) = self.filter_pine(i) {
            return Some(r);
        }
        if let Some(r) = self.order_pine(i) {
            return Some(r);
        }
        if let Some(r) = self.group_pine(i) {
            return Some(r);
        }
        self.compound_join_pine(i)
    }

    pub fn base_pine(&self, i: usize) -> (r: Option<(Sourced<Stage2Pine<'a>>, usize)>)
        requires
            self.wf(),
            i <= self.text().len(),
        ensures
            pine_found(r, p_base(self.text(), i as int), i as int, self.text().len() as int),
    {
        let j = match self.prefix_end(i, "from:", "f:") {
            Some(e) => self.skip_ws(e),
            None => i,
        };
        proof { reveal_strlit("from:"); reveal_strlit("f:"); }
        let (table, e1) = match self.table(j) {
            None => return None,
            Some(found) => found,
        };
        let (conditions, e) = self.more_conditions(e1);
        self.pine(Stage2Pine::Base { table, conditions }, i, e)
    }

    pub fn pines(&self, i: usize) -> (r: Result<(Vec<Sourced<Stage2Pine<'a>>>, usize), usize>)
        requires
            self.wf(),
            i <= self.text().len(),
        ensures
            match r {
                Ok((v, e)) => p_pines(self.text(), i as int) == Ok::<_, int>((v.deep_view(), e as int))
                    && e <= self.text().len(),
                Err(at) => p_pines(self.text(), i as int) == Err::<(Seq<Sourced<Stage2PineModel>>, int), _>(at as int),
            },
    {
        let ghost s = self.text();
        let mut items: Vec<Sourced<Stage2Pine<'a>>> = Vec::new();
        let mut cur = i;
        assert(items.deep_view() =~= Seq::empty());
        loop
            invariant
                self.wf(),
                s == self.text(),
                i <= cur <= s.len(),
                p_pines(s, i as int) == match p_pines(s, cur as int) {
                    Ok((rest, e)) => Ok((items.deep_view() + rest, e)),
                    Err(at) => Err(at),
                },
            decreases s.len() - cur,
        {
            let j = self.skip_ws(cur);
            if !self.is(j, '|') {
                proof {
                    assert(items.deep_view() + Seq::empty() =~= items.deep_view());
                }
                return Ok((items, cur));
            }
            let k = self.skip_ws(j + 1);
            match self.any_pine(k) {
                None => return Err(k),
                Some((pine, e)) => {
                    let ghost before = items.deep_view();
                    let ghost pine_view = pine.deep_view();
                    items.push(pine);
                    proof {
                        assert(items.deep_view() =~= before.push(pine_view));
                        match p_pines(s, e as int) {
                            Ok((rest, e2)) => {
                                assert(before + (seq![pine_view] + rest) =~= before.push(pine_view) + rest);
                            },
                            Err(_) => {},
                        }
                    }
                    cur = e;
                },
            }
        }
    }

    #[verifier::rlimit(50)]
    pub fn root(&self) -> (r: Result<Vec<Sourced<Stage2Pine<'a>>>, usize>)
        requires
            self.wf(),
        ensures
            match r {
                Ok(v) => p_root(self.text()) == Ok::<_, int>(v.deep_view()),
                Err(at) => p_root(self.text()) == Err::<Seq<Sourced<Stage2PineModel>>, _>(at as int),
            },
    {
        let start = self.skip_ws(0);
        let (base, e1) = match self.base_pine(start) {
            None => return Err(start),
            Some(found) => found,
        };
        let (pines, e2) = match self.pines(e1) {
            Err(at) => return Err(at),
            Ok(found) => found,
        };
        let end = self.skip_ws(e2);
        if end == self.len() {
            let ghost pines_view = pines.deep_view();
            let ghost base_view = base.deep_view();
            let mut all = pines;
            all.insert(0, base);
            proof {
                assert(all.deep_view() =~= seq![base_view] + pines_view);
            }
            Ok(all)
        } else {
            Err(end)
        }
    }
}

} // verus!

verus! {

/// Reading a comparison and writing it back gives the text that was read: the comparison read
/// at `i` is the one whose SQL operator stands there, the longest one when two do (`<=` rather
/// than `<`), and one is read whenever an operator stands at `i`.
pub proof fn lemma_comparison_round_trip(s: Seq<char>, i: int)
    ensures
        p_comparison(s, i) matches Some((c, e)) ==> {
            &&& crate::engine::rendering::query_rendering::comparison_text(c.it) == s.subrange(i, e)
            &&& forall|d: Comparison|
                #![trigger crate::engine::rendering::query_rendering::comparison_text(d)]
                crate::engine::rendering::query_rendering::comparison_text(d).len() > e - i
                    ==> !has_text(s, i, crate::engine::rendering::query_rendering::comparison_text(d))
        },
        (exists|d: Comparison|
            has_text(s, i, #[trigger] crate::engine::rendering::query_rendering::comparison_text(d)))
            ==> p_comparison(s, i) is Some,
{
    reveal_strlit("=");
    reveal_strlit("!=");
    reveal_strlit(">");
    reveal_strlit(">=");
    reveal_strlit("<");
    reveal_strlit("<=");
    if let Some((c, e)) = p_comparison(s, i) {
        assert forall|d: Comparison|
            #![trigger crate::engine::rendering::query_rendering::comparison_text(d)]
            crate::engine::rendering::query_rendering::comparison_text(d).len() > e - i
                implies !has_text(s, i, crate::engine::rendering::query_rendering::comparison_text(d)) by {
            let t = crate::engine::rendering::query_rendering::comparison_text(d);
            if has_text(s, i, t) {
                assert(s[i] == t[0]);
                assert(s.subrange(i, i + t.len())[1] == t[1]);
            }
        }
    }
    if exists|d: Comparison|
        has_text(s, i, #[trigger] crate::engine::rendering::query_rendering::comparison_text(d)) {
        let d = choose|d: Comparison|
            has_text(s, i, #[trigger] crate::engine::rendering::query_rendering::comparison_text(d));
        let t = crate::engine::rendering::query_rendering::comparison_text(d);
        assert(s.subrange(i, i + t.len())[0] == t[0]);
        if t.len() == 2 {
            assert(s.subrange(i, i + t.len())[1] == t[1]);
            assert(s.subrange(i, i + 1) =~= seq![t[0]]);
        }
    }
}

} // verus!

verus! {

proof fn lemma_run_members(s: Seq<char>, i: int, class: CharClass)
    requires
        0 <= i <= s.len(),
    ensures
        forall|k: int| i <= k < run_end(s, i, class) ==> in_class(#[trigger] s[k], class),
    decreases s.len() - i,
{
    if i < s.len() && in_class(s[i], class) {
        lemma_run_members(s, i + 1, class);
    }
}

/// A run of white space after `i` followed by the keyword `k` holds no `not`, when `k` holds none.
proof fn lemma_no_not_in_keyword_after_ws(s: Seq<char>, i: int, k: Seq<char>)
    requires
        keyword_after_ws(s, i, k) is Some,
        forall|a: int| 0 <= a < k.len() ==> #[trigger] k[a] != 'n' || (a + 1 < k.len() && k[a + 1] != 'o'),
        forall|a: int| 0 <= a < k.len() ==> #[trigger] is_lower(k[a]),
    ensures
        forall|j: int|
            i <= j < keyword_after_ws(s, i, k)->Some_0 ==> !#[trigger] has_keyword(s, j, "not"@),
{
    reveal_strlit("not");
    let w = skip_ws(s, i);
    lemma_run_end_bounds(s, i, CharClass::Space);
    lemma_run_members(s, i, CharClass::Space);
    assert forall|j: int| i <= j < keyword_after_ws(s, i, k)->Some_0 implies !has_keyword(s, j, "not"@) by {
        if has_keyword(s, j, "not"@) {
            let t = "not"@;
            assert(t[0] == 'n' && t[1] == 'o');
            assert(same_letter(s[j + 0], t[0]));
            assert(same_letter(s[j + 1], t[1]));
            assert(s[j + 0] == s[j]);
            assert(s[j] == 'n' || s[j] as u32 + 32 == 'n' as u32);
            if j < w {
                assert(is_space(s[j]));
                assert(' ' as u32 == 32 && '\t' as u32 == 9 && '\n' as u32 == 10 && '\r' as u32 == 13);
                assert('n' as u32 == 110);
            } else {
                let a = j - w;
                assert(has_keyword(s, w, k));
                assert(0 <= a < k.len());
                assert(same_letter(s[w + a], k[a]));
                assert(is_lower(k[a]));
                assert(k[a] == 'n');
                assert(a + 1 < k.len() && k[a + 1] != 'o');
                assert(same_letter(s[w + (a + 1)], k[a + 1]));
                assert(s[w + (a + 1)] == s[j + 1]);
                assert(is_lower(k[a + 1]));
            }
        }
    }
}

/// A null test is negated exactly when the word `not` follows its operand: reading `x is null`
/// gives `IsNull(x)`, and `x is not null` gives `IsNotNull(x)`.
pub proof fn lemma_null_test_negated_by_not(s: Seq<char>, i: int)
    ensures
        p_unary_condition(s, i) matches Some((u, e)) ==> (p_computation(s, i) matches Some((o, e1)) && {
            &&& u.it matches UnaryConditionHolder::IsNull(x) ==> x == o
            &&& u.it matches UnaryConditionHolder::IsNotNull(x) ==> x == o
            &&& u.it is IsNotNull <==> exists|j: int| e1 <= j < e && #[trigger] has_keyword(s, j, "not"@)
        }),
{
    reveal_strlit("is");
    reveal_strlit("not");
    reveal_strlit("null");
    if let Some((u, e)) = p_unary_condition(s, i) {
        let (o, e1) = p_computation(s, i)->Some_0;
        let e2 = keyword_after_ws(s, e1, "is"@)->Some_0;
        lemma_no_not_in_keyword_after_ws(s, e1, "is"@);
        match keyword_after_ws(s, e2, "not"@) {
            Some(e3) => {
                let w = skip_ws(s, e2);
                assert(has_keyword(s, w, "not"@));
                lemma_run_end_bounds(s, e2, CharClass::Space);
                lemma_run_end_bounds(s, e1, CharClass::Space);
            },
            None => {
                lemma_no_not_in_keyword_after_ws(s, e2, "null"@);
                assert forall|j: int| e1 <= j < e implies !#[trigger] has_keyword(s, j, "not"@) by {
                    if j >= e2 {
                    }
                }
            },
        }
    }
}

} // verus!
