/// Parses CREATE TABLE queries into tables.
pub mod parsing;
pub mod querying;
/// Structs used to represent database structure.
pub mod structure;

use vstd::prelude::*;

verus! {

/// A statement describing the database structure could not be read.
#[derive(Debug)]
pub struct DbStructureParseError {
    pub input: InputWindow,
    /// The line of the window that could not be read, counted from 0.
    pub line_number: usize,
    pub message: String,
}

/// Where the statements being read came from.
#[derive(Debug)]
pub enum DbStructureParsingContext {
    /// A file, by its path.
    File(String),
    Connection { database: String, table: String },
    /// Nowhere in particular.
    Unspecified,
}

pub enum DbStructureParsingContextModel {
    File(Seq<char>),
    Connection { database: Seq<char>, table: Seq<char> },
    Unspecified,
}

impl DeepView for DbStructureParsingContext {
    type V = DbStructureParsingContextModel;

    open spec fn deep_view(&self) -> DbStructureParsingContextModel {
        match self {
            DbStructureParsingContext::File(path) => DbStructureParsingContextModel::File(path@),
            DbStructureParsingContext::Connection { database, table } =>
                DbStructureParsingContextModel::Connection { database: database@, table: table@ },
            DbStructureParsingContext::Unspecified => DbStructureParsingContextModel::Unspecified,
        }
    }
}

impl Default for DbStructureParsingContext {
    fn default() -> (r: DbStructureParsingContext)
        ensures
            r is Unspecified,
    {
        DbStructureParsingContext::Unspecified
    }
}

impl DbStructureParsingContext {
    pub fn copy(&self) -> (r: DbStructureParsingContext)
        ensures
            r.deep_view() == self.deep_view(),
    {
        match self {
            DbStructureParsingContext::File(path) => DbStructureParsingContext::File(path.clone()),
            DbStructureParsingContext::Connection { database, table } =>
                DbStructureParsingContext::Connection {
                database: database.clone(),
                table: table.clone(),
            },
            DbStructureParsingContext::Unspecified => DbStructureParsingContext::Unspecified,
        }
    }
}

/// A few lines of the statements being read, and where they start.
#[derive(Debug)]
pub struct InputWindow {
    pub context: DbStructureParsingContext,
    /// The line the window starts at, counted from 0.
    pub start_line: usize,
    pub content: String,
}

impl InputWindow {
    /// The window with `line` added to its content.
    pub fn with_line(&self, line: &str) -> (r: InputWindow)
        ensures
            r.content@ == self.content@ + line@,
            r.context.deep_view() == self.context.deep_view(),
            r.start_line == self.start_line,
    {
        InputWindow {
            content: self.content.clone().concat(line),
            context: self.context.copy(),
            start_line: self.start_line,
        }
    }

    /// The window, for statements that start `base_line` lines further on.
    pub fn move_window(self, base_line: usize) -> (r: InputWindow)
        requires
            base_line + self.start_line <= usize::MAX,
        ensures
            r.start_line == base_line + self.start_line,
            r.content == self.content,
            r.context == self.context,
    {
        InputWindow { start_line: base_line + self.start_line, ..self }
    }
}

impl DbStructureParseError {
    /// The error, for statements that start `base_line` lines further on.
    pub fn move_window(self, base_line: usize) -> (r: DbStructureParseError)
        requires
            base_line + self.input.start_line <= usize::MAX,
        ensures
            r.input.start_line == base_line + self.input.start_line,
            r.input.content == self.input.content,
            r.input.context == self.input.context,
            r.line_number == self.line_number,
            r.message == self.message,
    {
        DbStructureParseError { input: self.input.move_window(base_line), ..self }
    }
}

} // verus!

verus! {

// ---------------------------------------------------------------------------------------------
// The error message

/// The text of a context: the file's path, or nothing when the context is unspecified.
pub open spec fn context_text(c: DbStructureParsingContextModel) -> Seq<char> {
    match c {
        DbStructureParsingContextModel::File(path) => "In file: "@ + path,
        _ => Seq::empty(),
    }
}

/// The line without the carriage return that ends it, if one does.
pub open spec fn without_cr(line: Seq<char>) -> Seq<char> {
    if line.len() > 0 && line.last() == '\r' {
        line.drop_last()
    } else {
        line
    }
}

/// The lines of a text as `str::lines` gives them: a line ends at `\n` or `\r\n`, and a final
/// line ending makes no empty line after it.
pub open spec fn text_lines(s: Seq<char>) -> Seq<Seq<char>> {
    let pieces = crate::engine::sql::parsing::lines(s);
    let ended = pieces.drop_last().map_values(|p: Seq<char>| without_cr(p));
    if pieces.last().len() == 0 {
        ended
    } else {
        ended.push(pieces.last())
    }
}

/// `s` right-aligned in three columns.
pub open spec fn aligned3(s: Seq<char>) -> Seq<char> {
    if s.len() >= 3 {
        s
    } else {
        Seq::new((3 - s.len()) as nat, |i: int| ' ') + s
    }
}

/// A line of the window: its number, counted from 1, and its text; the line that could not be
/// read is underlined.
pub open spec fn window_line_text(nr: nat, text: Seq<char>, start_line: nat, line_number: nat) -> Seq<
    char,
> {
    aligned3(crate::engine::rendering::query_rendering::decimal_text(nr + start_line + 1)) + " | "@
        + text + "\n"@ + if nr == line_number {
        "    | "@ + Seq::new((vstd::utf8::encode_utf8(text).len() as usize) as nat, |i: int| '^')
            + "\n"@
    } else {
        Seq::empty()
    }
}

pub open spec fn window_text(lines: Seq<Seq<char>>, start_line: nat, line_number: nat) -> Seq<char>
    decreases lines.len(),
{
    if lines.len() == 0 {
        Seq::empty()
    } else {
        window_text(lines.drop_last(), start_line, line_number) + window_line_text(
            (lines.len() - 1) as nat,
            lines.last(),
            start_line,
            line_number,
        )
    }
}

/// The message of the error, with the window's lines numbered.
pub open spec fn parse_error_text(
    message: Seq<char>,
    context: DbStructureParsingContextModel,
    start_line: nat,
    content: Seq<char>,
    line_number: nat,
) -> Seq<char> {
    "Error parsing DDL statement:\n"@ + message + "\n"@ + context_text(context) + "\n"@ + window_text(
        text_lines(content),
        start_line,
        line_number,
    )
}

/// Writes `text` right-aligned in three columns.
fn write_aligned3(out: &mut String, n: usize)
    ensures
        final(out)@ == old(out)@ + aligned3(
            crate::engine::rendering::query_rendering::decimal_text(n as nat),
        ),
{
    let mut digits = String::new();
    crate::engine::rendering::query_rendering::write_decimal(&mut digits, n);
    let len = digits.as_str().unicode_len();
    let mut k = len;
    let ghost before = out@;
    while k < 3
        invariant
            len <= k,
            len <= 3 ==> k <= 3,
            len > 3 ==> k == len,
            out@ == before + Seq::new((k - len) as nat, |i: int| ' '),
        decreases 3 - k,
    {
        out.append(" ");
        proof {
            reveal_strlit(" ");
            assert(out@ =~= before + Seq::new((k + 1 - len) as nat, |i: int| ' '));
        }
        k += 1;
    }
    out.append(digits.as_str());
    proof {
        assert(digits@ =~= digits@.subrange(0, len as int));
        assert(out@ =~= old(out)@ + aligned3(
            crate::engine::rendering::query_rendering::decimal_text(n as nat),
        ));
    }
}

/// Writes `n` carets.
fn write_carets(out: &mut String, n: usize)
    ensures
        final(out)@ == old(out)@ + Seq::new(n as nat, |i: int| '^'),
{
    let mut k: usize = 0;
    while k < n
        invariant
            k <= n,
            out@ == old(out)@ + Seq::new(k as nat, |i: int| '^'),
        decreases n - k,
    {
        out.append("^");
        proof {
            reveal_strlit("^");
            assert(out@ =~= old(out)@ + Seq::new((k + 1) as nat, |i: int| '^'));
        }
        k += 1;
    }
}

/// The lines of `s` as `str::lines` gives them.
pub fn text_lines_of(s: &str) -> (r: Vec<&str>)
    ensures
        r@.map_values(|l: &str| l@) == text_lines(s@),
{
    let pieces = crate::engine::sql::parsing::split_lines(s);
    let ghost ps = pieces@.map_values(|l: &str| l@);
    proof {
        crate::engine::sql::parsing::lemma_lines_not_empty(s@);
    }
    let n = pieces.len();
    let mut out: Vec<&str> = Vec::new();
    let mut k: usize = 0;
    while k + 1 < n
        invariant
            ps == pieces@.map_values(|l: &str| l@),
            n == ps.len(),
            n >= 1,
            k + 1 <= n,
            out@.map_values(|l: &str| l@) =~= ps.drop_last().take(k as int).map_values(
                |p: Seq<char>| without_cr(p),
            ),
        decreases n - k,
    {
        let piece = pieces[k];
        let len = piece.unicode_len();
        let line = if len > 0 && piece.get_char(len - 1) == '\r' {
            piece.substring_char(0, len - 1)
        } else {
            piece
        };
        let ghost before = out@.map_values(|l: &str| l@);
        out.push(line);
        proof {
            assert(line@ =~= without_cr(ps[k as int]));
            assert(out@.map_values(|l: &str| l@) =~= before.push(line@));
            assert(ps.drop_last().take(k + 1) =~= ps.drop_last().take(k as int).push(ps[k as int]));
        }
        k += 1;
    }
    proof {
        assert(ps.drop_last().take(k as int) =~= ps.drop_last());
    }
    let last = pieces[n - 1];
    if last.unicode_len() > 0 {
        let ghost before = out@.map_values(|l: &str| l@);
        out.push(last);
        proof {
            assert(out@.map_values(|l: &str| l@) =~= before.push(last@));
        }
    }
    out
}

impl DbStructureParsingContext {
    /// The text of the context. There is none yet for a connection.
    pub fn to_text(&self) -> (r: String)
        requires
            !(self is Connection),
        ensures
            r@ == context_text(self.deep_view()),
    {
        match self {
            DbStructureParsingContext::File(path) => {
                let mut out = String::from_str("In file: ");
                out.append(path.as_str());
                out
            },
            _ => {
                let out = String::new();
                out
            },
        }
    }
}

/// Writes line `nr` of a window.
fn write_window_line(out: &mut String, nr: usize, text: &str, start_line: usize, line_number: usize)
    requires
        nr + start_line + 1 <= usize::MAX,
    ensures
        final(out)@ == old(out)@ + window_line_text(
            nr as nat,
            text@,
            start_line as nat,
            line_number as nat,
        ),
{
    write_aligned3(out, nr + start_line + 1);
    out.append(" | ");
    out.append(text);
    out.append("\n");
    let ghost middle = out@;
    if nr == line_number {
        out.append("    | ");
        write_carets(out, text.len());
        out.append("\n");
    }
    proof {
        assert(out@ =~= old(out)@ + window_line_text(
            nr as nat,
            text@,
            start_line as nat,
            line_number as nat,
        ));
    }
}

impl DbStructureParseError {
    /// The message of the error, with the window's lines numbered and the line that could not
    /// be read underlined.
    pub fn to_text(&self) -> (r: String)
        requires
            !(self.input.context is Connection),
            self.input.start_line + text_lines(self.input.content@).len() <= usize::MAX,
        ensures
            r@ == parse_error_text(
                self.message@,
                self.input.context.deep_view(),
                self.input.start_line as nat,
                self.input.content@,
                self.line_number as nat,
            ),
    {
        let mut out = String::from_str("Error parsing DDL statement:\n");
        out.append(self.message.as_str());
        out.append("\n");
        let context = self.input.context.to_text();
        out.append(context.as_str());
        out.append("\n");
        let ghost head = out@;
        let lines = text_lines_of(self.input.content.as_str());
        let ghost ls = lines@.map_values(|l: &str| l@);
        let n = lines.len();
        let mut k: usize = 0;
        proof {
            assert(ls.take(0) =~= Seq::<Seq<char>>::empty());
            assert(out@ =~= head + window_text(ls.take(0), self.input.start_line as nat, self.line_number as nat));
        }
        while k < n
            invariant
                ls == lines@.map_values(|l: &str| l@),
                ls == text_lines(self.input.content@),
                n == ls.len(),
                self.input.start_line + n <= usize::MAX,
                k <= n,
                out@ == head + window_text(ls.take(k as int), self.input.start_line as nat, self.line_number as nat),
            decreases n - k,
        {
            let text = lines[k];
            proof {
                assert(ls.take(k + 1).drop_last() =~= ls.take(k as int));
                assert(ls.take(k + 1).last() == text@);
            }
            write_window_line(&mut out, k, text, self.input.start_line, self.line_number);
            k += 1;
        }
        proof {
            assert(ls.take(n as int) =~= ls);
        }
        out
    }
}

} // verus!

verus! {

// ---------------------------------------------------------------------------------------------
// The error message, in styled parts

/// How a part of a message is shown.
#[derive(Debug, Clone, Copy, PartialEq, Eq, Structural)]
pub enum TextStyle {
    Plain,
    Bold,
    Red,
}

/// A part of a message, and how it is shown.
#[derive(Debug)]
pub struct StyledText {
    pub style: TextStyle,
    pub text: String,
}

impl DeepView for StyledText {
    type V = (TextStyle, Seq<char>);

    open spec fn deep_view(&self) -> (TextStyle, Seq<char>) {
        (self.style, self.text@)
    }
}

/// The text of the parts, one after the other.
pub open spec fn flatten(parts: Seq<(TextStyle, Seq<char>)>) -> Seq<char>
    decreases parts.len(),
{
    if parts.len() == 0 {
        Seq::empty()
    } else {
        flatten(parts.drop_last()) + parts.last().1
    }
}

proof fn lemma_flatten_append(a: Seq<(TextStyle, Seq<char>)>, b: Seq<(TextStyle, Seq<char>)>)
    ensures
        flatten(a + b) == flatten(a) + flatten(b),
    decreases b.len(),
{
    if b.len() == 0 {
        assert(a + b =~= a);
        assert(flatten(a) + flatten(b) =~= flatten(a));
    } else {
        assert((a + b).drop_last() =~= a + b.drop_last());
        lemma_flatten_append(a, b.drop_last());
        assert(flatten(a) + flatten(b.drop_last()) + b.last().1 =~= flatten(a) + (flatten(
            b.drop_last(),
        ) + b.last().1));
    }
}

/// A line of the window in parts: the underline, when there is one, is red.
pub open spec fn window_line_parts(nr: nat, text: Seq<char>, start_line: nat, line_number: nat) -> Seq<
    (TextStyle, Seq<char>),
> {
    seq![
        (
            TextStyle::Plain,
            aligned3(crate::engine::rendering::query_rendering::decimal_text(nr + start_line + 1))
                + " | "@ + text + "\n"@,
        ),
    ] + if nr == line_number {
        seq![
            (TextStyle::Plain, "    | "@),
            (TextStyle::Red, Seq::new((vstd::utf8::encode_utf8(text).len() as usize) as nat, |i: int| '^')),
            (TextStyle::Plain, "\n"@),
        ]
    } else {
        Seq::empty()
    }
}

pub open spec fn window_parts(lines: Seq<Seq<char>>, start_line: nat, line_number: nat) -> Seq<
    (TextStyle, Seq<char>),
>
    decreases lines.len(),
{
    if lines.len() == 0 {
        Seq::empty()
    } else {
        window_parts(lines.drop_last(), start_line, line_number) + window_line_parts(
            (lines.len() - 1) as nat,
            lines.last(),
            start_line,
            line_number,
        )
    }
}

/// The message of the error in parts: the message itself is bold, the underline red.
pub open spec fn parse_error_parts(
    message: Seq<char>,
    context: DbStructureParsingContextModel,
    start_line: nat,
    content: Seq<char>,
    line_number: nat,
) -> Seq<(TextStyle, Seq<char>)> {
    seq![
        (TextStyle::Plain, "Error parsing DDL statement:\n"@),
        (TextStyle::Bold, message),
        (TextStyle::Plain, "\n"@ + context_text(context) + "\n"@),
    ] + window_parts(text_lines(content), start_line, line_number)
}

proof fn lemma_window_parts_text(lines: Seq<Seq<char>>, start_line: nat, line_number: nat)
    ensures
        flatten(window_parts(lines, start_line, line_number)) == window_text(
            lines,
            start_line,
            line_number,
        ),
    decreases lines.len(),
{
    if lines.len() > 0 {
        let nr = (lines.len() - 1) as nat;
        lemma_window_parts_text(lines.drop_last(), start_line, line_number);
        let line = window_line_parts(nr, lines.last(), start_line, line_number);
        lemma_flatten_append(window_parts(lines.drop_last(), start_line, line_number), line);
        reveal_with_fuel(flatten, 5);
        assert(flatten(line) =~= window_line_text(nr, lines.last(), start_line, line_number));
    }
}

/// The parts, put together, are the message's text.
pub proof fn lemma_parse_error_parts_text(
    message: Seq<char>,
    context: DbStructureParsingContextModel,
    start_line: nat,
    content: Seq<char>,
    line_number: nat,
)
    ensures
        flatten(parse_error_parts(message, context, start_line, content, line_number))
            == parse_error_text(message, context, start_line, content, line_number),
{
    let head = seq![
        (TextStyle::Plain, "Error parsing DDL statement:\n"@),
        (TextStyle::Bold, message),
        (TextStyle::Plain, "\n"@ + context_text(context) + "\n"@),
    ];
    let lines = text_lines(content);
    lemma_flatten_append(head, window_parts(lines, start_line, line_number));
    lemma_window_parts_text(lines, start_line, line_number);
    reveal_with_fuel(flatten, 4);
    assert(flatten(head) =~= "Error parsing DDL statement:\n"@ + message + "\n"@ + context_text(
        context,
    ) + "\n"@);
    assert(flatten(parse_error_parts(message, context, start_line, content, line_number))
        =~= parse_error_text(message, context, start_line, content, line_number));
}

/// Adds the parts of line `nr` of a window.
fn push_window_line(
    parts: &mut Vec<StyledText>,
    nr: usize,
    text: &str,
    start_line: usize,
    line_number: usize,
)
    requires
        nr + start_line + 1 <= usize::MAX,
    ensures
        final(parts).deep_view() == old(parts).deep_view() + window_line_parts(
            nr as nat,
            text@,
            start_line as nat,
            line_number as nat,
        ),
{
    let ghost before = parts.deep_view();
    let mut first = String::new();
    write_aligned3(&mut first, nr + start_line + 1);
    first.append(" | ");
    first.append(text);
    first.append("\n");
    let first_part = StyledText { style: TextStyle::Plain, text: first };
    parts.push(first_part);
    if nr == line_number {
        let bar = StyledText { style: TextStyle::Plain, text: String::from_str("    | ") };
        let mut carets = String::new();
        write_carets(&mut carets, text.len());
        let underline = StyledText { style: TextStyle::Red, text: carets };
        let end = StyledText { style: TextStyle::Plain, text: String::from_str("\n") };
        let ghost b1 = parts.deep_view();
        parts.push(bar);
        let ghost b2 = parts.deep_view();
        parts.push(underline);
        let ghost b3 = parts.deep_view();
        parts.push(end);
        proof {
            assert(b1 =~= before.push(first_part.deep_view()));
            assert(b2 =~= b1.push(bar.deep_view()));
            assert(b3 =~= b2.push(underline.deep_view()));
            assert(parts.deep_view() =~= b3.push(end.deep_view()));
            assert(carets@ =~= Seq::new((vstd::utf8::encode_utf8(text@).len() as usize) as nat, |i: int| '^'));
            assert(text.len() == (vstd::utf8::encode_utf8(text@).len() as usize));
        }
    }
    proof {
        assert(parts.deep_view() =~= before + window_line_parts(
            nr as nat,
            text@,
            start_line as nat,
            line_number as nat,
        ));
    }
}

impl DbStructureParseError {
    /// The message of the error in parts, for showing it with styles: the message itself is
    /// bold, and the underline of the line that could not be read is red.
    pub fn to_parts(&self) -> (r: Vec<StyledText>)
        requires
            !(self.input.context is Connection),
            self.input.start_line + text_lines(self.input.content@).len() <= usize::MAX,
        ensures
            r.deep_view() == parse_error_parts(
                self.message@,
                self.input.context.deep_view(),
                self.input.start_line as nat,
                self.input.content@,
                self.line_number as nat,
            ),
    {
        let mut parts: Vec<StyledText> = Vec::new();
        let intro = StyledText {
            style: TextStyle::Plain,
            text: String::from_str("Error parsing DDL statement:\n"),
        };
        let message = StyledText { style: TextStyle::Bold, text: self.message.clone() };
        let mut context = String::from_str("\n");
        let context_line = self.input.context.to_text();
        context.append(context_line.as_str());
        context.append("\n");
        let context_part = StyledText { style: TextStyle::Plain, text: context };
        parts.push(intro);
        parts.push(message);
        parts.push(context_part);
        let ghost head = parts.deep_view();
        proof {
            assert(head =~= seq![intro.deep_view(), message.deep_view(), context_part.deep_view()]);
        }
        let lines = text_lines_of(self.input.content.as_str());
        let ghost ls = lines@.map_values(|l: &str| l@);
        let n = lines.len();
        let mut k: usize = 0;
        proof {
            assert(ls.take(0) =~= Seq::<Seq<char>>::empty());
            assert(parts.deep_view() =~= head + window_parts(ls.take(0), self.input.start_line as nat, self.line_number as nat));
        }
        while k < n
            invariant
                ls == lines@.map_values(|l: &str| l@),
                ls == text_lines(self.input.content@),
                n == ls.len(),
                self.input.start_line + n <= usize::MAX,
                k <= n,
                parts.deep_view() == head + window_parts(ls.take(k as int), self.input.start_line as nat, self.line_number as nat),
            decreases n - k,
        {
            let text = lines[k];
            proof {
                assert(ls.take(k + 1).drop_last() =~= ls.take(k as int));
                assert(ls.take(k + 1).last() == text@);
            }
            let ghost before = parts.deep_view();
            push_window_line(&mut parts, k, text, self.input.start_line, self.line_number);
            proof {
                assert(parts.deep_view() =~= head + window_parts(ls.take(k + 1), self.input.start_line as nat, self.line_number as nat));
            }
            k += 1;
        }
        proof {
            assert(ls.take(n as int) =~= ls);
        }
        parts
    }
}

} // verus!
