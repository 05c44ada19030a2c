//! Reads the `CREATE TABLE` statements that MySQL gives for `SHOW CREATE TABLE` into tables.
//!
//! MySQL lists a table's columns first, one per line, then its primary key, then its other
//! keys and constraints. Each line is recognised by a regular expression.
use crate::engine::sql::querying::TableDescription;
use crate::engine::sql::structure::{
    Column, ColumnName, ForeignKey, ForeignKeyModel, Key, KeyReference, KeyReferenceModel, Table,
    TableModel, TableName,
};
use vstd::prelude::*;

verus! {

// ---------------------------------------------------------------------------------------------
// Regular expressions

/// A column line: its name in backticks, then a space.
pub const COLUMN_NAME_PATTERN: &'static str = "(?i)^`([a-z0-9_]+)` ";

/// A foreign key: the columns, the table they refer to, and its columns.
///
/// The pattern is more relaxed than the syntax about commas between columns, which MySQL
/// always writes correctly. Its groups: 1 the columns, 4 the table, 5 the table's columns.
pub const FOREIGN_KEY_PATTERN: &'static str = "(?i)FOREIGN KEY \\((?<from_keys>((`[a-z0-9_]+`),?\\s*)+)\\) REFERENCES `(?<to_table>[a-z0-9_]+)` \\((?<to_keys>((`[a-z0-9_]+)`,?\\s*)+)\\)";

/// A name in a list of columns.
pub const SQL_NAME_PATTERN: &'static str = "\\b[\\w_]+\\b";

/// The first line of the statement, naming the table.
pub const CREATE_TABLE_PATTERN: &'static str = "(?i)^CREATE TABLE `([a-z0-9_]+)`";

/// The primary key line; group 1 holds its columns.
pub const PRIMARY_KEY_PATTERN: &'static str = "(?i)^\\s*PRIMARY KEY \\((?<key>((`[a-z0-9_]+`),?\\s?)+)\\)";

/// What `regex::Regex::captures` finds for `pattern` in `haystack`: the text of each capture
/// group of the first match, group 0 being the whole match and a group that took no part in
/// it being `None`; `None` when there is no match, or when `pattern` is not a valid regular
/// expression.
pub uninterp spec fn regex_captures(pattern: Seq<char>, haystack: Seq<char>) -> Option<
    Seq<Option<Seq<char>>>,
>;

/// What `regex::Regex::find_iter` finds for `pattern` in `haystack`: the text of each
/// successive non-overlapping match; none when `pattern` is not a valid regular expression.
pub uninterp spec fn regex_matches(pattern: Seq<char>, haystack: Seq<char>) -> Seq<Seq<char>>;

/// Compiles `pattern` with `regex::Regex::new` and returns the groups of its first match in
/// `haystack` as `regex::Regex::captures` gives them. Trusted: the result is named by
/// `regex_captures`, which says nothing more of it.
#[verifier::external_body]
fn captures(pattern: &str, haystack: &str) -> (r: Option<Vec<Option<String>>>)
    ensures
        r.deep_view() == regex_captures(pattern@, haystack@),
{
    let re = match regex::Regex::new(pattern) {
        Ok(re) => re,
        Err(_) => return None,
    };
    let found = re.captures(haystack)?;
    let mut groups = Vec::new();
    for group in found.iter() {
        groups.push(group.map(|m| m.as_str().to_string()));
    }
    Some(groups)
}

/// Compiles `pattern` with `regex::Regex::new` and returns the text of every match that
/// `regex::Regex::find_iter` yields in `haystack`. Trusted: the result is named by
/// `regex_matches`, which says nothing more of it.
#[verifier::external_body]
fn find_all(pattern: &str, haystack: &str) -> (r: Vec<String>)
    ensures
        r.deep_view() == regex_matches(pattern@, haystack@),
{
    match regex::Regex::new(pattern) {
        Ok(re) => re.find_iter(haystack).map(|m| m.as_str().to_string()).collect(),
        Err(_) => Vec::new(),
    }
}

/// The text of group `i`, when the pattern matched and the group took part in the match.
pub open spec fn group(caps: Option<Seq<Option<Seq<char>>>>, i: int) -> Option<Seq<char>> {
    match caps {
        Some(groups) => if 0 <= i < groups.len() {
            groups[i]
        } else {
            None
        },
        None => None,
    }
}

pub fn group_of(caps: &Option<Vec<Option<String>>>, i: usize) -> (r: Option<&str>)
    ensures
        match r {
            Some(s) => group(caps.deep_view(), i as int) == Some(s@),
            None => group(caps.deep_view(), i as int) is None,
        },
{
    match caps {
        Some(groups) => if i < groups.len() {
            match &groups[i] {
                Some(s) => Some(s.as_str()),
                None => None,
            }
        } else {
            None
        },
        None => None,
    }
}

/// A parse result in terms of views.
pub open spec fn outcome<T: DeepView>(r: Result<T, String>) -> Result<T::V, Seq<char>> {
    match r {
        Ok(t) => Ok(t.deep_view()),
        Err(e) => Err(e@),
    }
}

// ---------------------------------------------------------------------------------------------
// Text

/// Unicode's white space, as `char::is_whitespace` has it.
pub open spec fn is_whitespace(c: char) -> bool {
    let u = c as u32;
    ||| u == 0x20
    ||| 0x9 <= u <= 0xd
    ||| u == 0x85
    ||| u == 0xa0
    ||| u == 0x1680
    ||| 0x2000 <= u <= 0x200a
    ||| u == 0x2028
    ||| u == 0x2029
    ||| u == 0x202f
    ||| u == 0x205f
    ||| u == 0x3000
}

pub fn char_is_whitespace(c: char) -> (r: bool)
    ensures
        r == is_whitespace(c),
{
    let u = c as u32;
    u == 0x20 || (0x9 <= u && u <= 0xd) || u == 0x85 || u == 0xa0 || u == 0x1680 || (0x2000 <= u
        && u <= 0x200a) || u == 0x2028 || u == 0x2029 || u == 0x202f || u == 0x205f || u == 0x3000
}

/// The position of the first character at or after `i` that is not white space.
pub open spec fn whitespace_end(s: Seq<char>, i: int) -> int
    decreases s.len() - i,
{
    if 0 <= i < s.len() && is_whitespace(s[i]) {
        whitespace_end(s, i + 1)
    } else {
        i
    }
}

/// The text without its leading white space.
pub open spec fn trimmed_start(s: Seq<char>) -> Seq<char> {
    s.subrange(whitespace_end(s, 0), s.len() as int)
}

pub fn trim_start(s: &str) -> (r: &str)
    ensures
        r@ == trimmed_start(s@),
{
    let n = s.unicode_len();
    let mut i: usize = 0;
    while i < n && char_is_whitespace(s.get_char(i))
        invariant
            n == s@.len(),
            i <= n,
            whitespace_end(s@, 0) == whitespace_end(s@, i as int),
        decreases n - i,
    {
        i += 1;
    }
    s.substring_char(i, n)
}

/// The position of the first line break at or after `i`, or the length of `s`.
pub open spec fn line_end(s: Seq<char>, i: int) -> int
    decreases s.len() - i,
{
    if 0 <= i < s.len() && s[i] != '\n' {
        line_end(s, i + 1)
    } else {
        i
    }
}

proof fn lemma_line_end_bounds(s: Seq<char>, i: int)
    requires
        0 <= i <= s.len(),
    ensures
        i <= line_end(s, i) <= s.len(),
        line_end(s, i) < s.len() ==> s[line_end(s, i)] == '\n',
    decreases s.len() - i,
{
    if i < s.len() && s[i] != '\n' {
        lemma_line_end_bounds(s, i + 1);
    }
}

/// The lines of `s` from position `i`, as `str::split('\n')` cuts them.
pub open spec fn lines_from(s: Seq<char>, i: int) -> Seq<Seq<char>>
    decreases s.len() - i,
{
    if 0 <= i <= s.len() {
        let e = line_end(s, i);
        if e < s.len() && i <= e {
            seq![s.subrange(i, e)] + lines_from(s, e + 1)
        } else {
            seq![s.subrange(i, s.len() as int)]
        }
    } else {
        Seq::empty()
    }
}

/// The lines of `s`; there is always at least one.
pub open spec fn lines(s: Seq<char>) -> Seq<Seq<char>> {
    lines_from(s, 0)
}

proof fn lemma_lines_from_len(s: Seq<char>, i: int)
    requires
        0 <= i <= s.len(),
    ensures
        1 <= lines_from(s, i).len() <= s.len() - i + 1,
    decreases s.len() - i,
{
    lemma_line_end_bounds(s, i);
    let e = line_end(s, i);
    if e < s.len() {
        lemma_lines_from_len(s, e + 1);
    }
}

/// A text has at least one line, and no more lines than characters plus one.
pub proof fn lemma_lines_not_empty(s: Seq<char>)
    ensures
        1 <= lines(s).len() <= s.len() + 1,
{
    lemma_lines_from_len(s, 0);
}

pub fn split_lines(s: &str) -> (r: Vec<&str>)
    ensures
        r@.map_values(|l: &str| l@) == lines(s@),
{
    let cursor = crate::engine::syntax::stage2::Cursor::new(s);
    let n = cursor.len();
    let mut out: Vec<&str> = Vec::new();
    let mut start: usize = 0;
    proof {
        assert(out@.map_values(|l: &str| l@) + lines_from(s@, 0) =~= lines(s@));
    }
    loop
        invariant
            cursor.wf(),
            cursor.input == s,
            n == s@.len(),
            start <= n,
            out@.map_values(|l: &str| l@) + lines_from(s@, start as int) == lines(s@),
        decreases n - start,
    {
        let ghost before = out@.map_values(|l: &str| l@);
        let e = cursor.find_char(start, '\n');
        proof {
            lemma_line_end_bounds(s@, start as int);
            lemma_same_line_end(s@, start as int);
        }
        if e < n {
            let line = s.substring_char(start, e);
            out.push(line);
            proof {
                assert(out@.map_values(|l: &str| l@) =~= before.push(line@));
                assert(before.push(line@) + lines_from(s@, e + 1) =~= before + (seq![line@]
                    + lines_from(s@, e + 1)));
            }
            start = e + 1;
        } else {
            let line = s.substring_char(start, n);
            out.push(line);
            proof {
                assert(out@.map_values(|l: &str| l@) =~= before.push(line@));
                assert(before.push(line@) =~= before + lines_from(s@, start as int));
            }
            return out;
        }
    }
}

proof fn lemma_same_line_end(s: Seq<char>, i: int)
    requires
        0 <= i <= s.len(),
    ensures
        crate::engine::syntax::stage2::find_char(s, i, '\n') == line_end(s, i),
    decreases s.len() - i,
{
    if i < s.len() && s[i] != '\n' {
        lemma_same_line_end(s, i + 1);
    }
}

// ---------------------------------------------------------------------------------------------
// Columns

pub open spec fn column_of_captures(input: Seq<char>, caps: Option<Seq<Option<Seq<char>>>>) -> Result<
    Seq<char>,
    Seq<char>,
> {
    match group(caps, 1) {
        Some(name) => Ok(name),
        None => Err("Invalid column spec: \""@ + input + "\""@),
    }
}

/// The column a line defines: its name, from the first word in backticks.
pub open spec fn column_line(input: Seq<char>) -> Result<Seq<char>, Seq<char>> {
    column_of_captures(input, regex_captures(COLUMN_NAME_PATTERN@, trimmed_start(input)))
}

/// `"<before><input><after>"` as a new string.
fn framed(before: &str, input: &str, after: &str) -> (r: String)
    ensures
        r@ == before@ + input@ + after@,
{
    let mut out = String::from_str(before);
    out.append(input);
    out.append(after);
    out
}

/// `"<before><input>"` as a new string.
fn prefixed(before: &str, input: &str) -> (r: String)
    ensures
        r@ == before@ + input@,
{
    let mut out = String::from_str(before);
    out.append(input);
    out
}

impl Column {
    /// Reads a column definition line, such as "`id` int(11) NOT NULL,".
    pub fn from_sql_string(input: &str) -> (r: Result<Column, String>)
        ensures
            outcome(r) == column_line(input@),
    {
        let caps = captures(COLUMN_NAME_PATTERN, trim_start(input));
        Column::from_captures(input, &caps)
    }

    /// The column named by group 1 of a match of `COLUMN_NAME_PATTERN` in `input`.
    pub fn from_captures(input: &str, caps: &Option<Vec<Option<String>>>) -> (r: Result<
        Column,
        String,
    >)
        ensures
            outcome(r) == column_of_captures(input@, caps.deep_view()),
    {
        match group_of(caps, 1) {
            Some(name) => Ok(Column { name: ColumnName(name.to_owned()) }),
            None => Err(framed("Invalid column spec: \"", input, "\"")),
        }
    }
}

// ---------------------------------------------------------------------------------------------
// Keys

/// The names in a list of columns such as "`id`, `id2`".
pub open spec fn key_names(input: Seq<char>) -> Seq<Seq<char>> {
    regex_matches(SQL_NAME_PATTERN@, input)
}

fn names_of(input: &str) -> (r: Vec<String>)
    ensures
        r.deep_view() == key_names(input@),
{
    find_all(SQL_NAME_PATTERN, input)
}

/// The columns of `table` that `names` gives; `None` when there are none.
pub open spec fn key_reference_from_names(table: Seq<char>, names: Seq<Seq<char>>) -> Option<
    KeyReferenceModel,
> {
    if names.len() == 0 {
        None
    } else {
        Some(KeyReferenceModel { table, key: names })
    }
}

/// The columns of `table` named in `input`; `None` when it names none.
pub open spec fn key_reference_of(table: Seq<char>, input: Seq<char>) -> Option<KeyReferenceModel> {
    key_reference_from_names(table, key_names(input))
}

impl KeyReference {
    /// The columns of `table` named in `input`, such as "`id`, `id2`"; `None` when it names none.
    pub fn from_sql_str(table: &str, input: &str) -> (r: Option<KeyReference>)
        ensures
            r.deep_view() == key_reference_of(table@, input@),
    {
        KeyReference::from_names(table, names_of(input))
    }

    /// The columns of `table` that `names` gives; `None` when there are none.
    pub fn from_names(table: &str, names: Vec<String>) -> (r: Option<KeyReference>)
        ensures
            r.deep_view() == key_reference_from_names(table@, names.deep_view()),
    {
        if names.len() == 0 {
            return None;
        }
        Some(KeyReference { table: TableName(table.to_owned()), key: Key::from_names(names) })
    }
}

/// A key from the names in `input`; `None` when it names none.
pub open spec fn key_of_text(input: Seq<char>) -> Option<Seq<Seq<char>>> {
    if key_names(input).len() == 0 {
        None
    } else {
        Some(key_names(input))
    }
}

/// A key from `names`, or why there is none: `value` is the text they were found in.
pub open spec fn key_from_names(value: Seq<char>, names: Seq<Seq<char>>) -> Result<
    Seq<Seq<char>>,
    Seq<char>,
> {
    if names.len() == 0 {
        Err("Can't accept keys with 0 columns: "@ + value)
    } else {
        Ok(names)
    }
}

/// A key from the names in `value`, or why there is none.
pub open spec fn key_from_text(value: Seq<char>) -> Result<Seq<Seq<char>>, Seq<char>> {
    key_from_names(value, key_names(value))
}

impl Key {
    /// The key made of the given columns.
    pub fn from_names(names: Vec<String>) -> (r: Key)
        ensures
            r.deep_view() == names.deep_view(),
    {
        let mut columns: Vec<ColumnName> = Vec::new();
        let n = names.len();
        let mut k: usize = 0;
        while k < n
            invariant
                n == names@.len(),
                k <= n,
                columns.deep_view() =~= names.deep_view().take(k as int),
            decreases n - k,
        {
            let c = ColumnName(names[k].clone());
            let ghost before = columns.deep_view();
            columns.push(c);
            proof {
                assert(columns.deep_view() =~= before.push(c.deep_view()));
                assert(names.deep_view().take(k + 1) =~= names.deep_view().take(k as int).push(
                    names.deep_view()[k as int],
                ));
            }
            k += 1;
        }
        proof {
            assert(names.deep_view().take(n as int) =~= names.deep_view());
        }
        Key { columns }
    }

    /// The key made of the columns named in `input`; `None` when it names none.
    pub fn from_sql_str(input: &str) -> (r: Option<Key>)
        ensures
            r.deep_view() == key_of_text(input@),
    {
        let names = names_of(input);
        if names.len() == 0 {
            return None;
        }
        Some(Key::from_names(names))
    }

    /// The key made of the columns named in `value`, which must name at least one.
    pub fn try_from_sql_string(value: &str) -> (r: Result<Key, String>)
        ensures
            outcome(r) == key_from_text(value@),
    {
        Key::try_from_names(value, names_of(value))
    }

    /// The key made of `names`, found in `value`, which must be at least one.
    pub fn try_from_names(value: &str, names: Vec<String>) -> (r: Result<Key, String>)
        ensures
            outcome(r) == key_from_names(value@, names.deep_view()),
    {
        if names.len() == 0 {
            return Err(prefixed("Can't accept keys with 0 columns: ", value));
        }
        Ok(Key::from_names(names))
    }
}

// ---------------------------------------------------------------------------------------------
// Foreign keys

/// The foreign key of `from_table` given by the groups of a match of `FOREIGN_KEY_PATTERN`.
///
/// A side that names no column, which the pattern does not let through, counts as no match.
pub open spec fn foreign_key_of_captures(
    from_table: Seq<char>,
    input: Seq<char>,
    caps: Option<Seq<Option<Seq<char>>>>,
) -> Result<ForeignKeyModel, Seq<char>> {
    let invalid = Err("Invalid foreign key spec: \""@ + input + "\""@);
    match (group(caps, 1), group(caps, 4), group(caps, 5)) {
        (Some(from_keys), Some(to_table), Some(to_keys)) => match (
            key_reference_of(from_table, from_keys),
            key_reference_of(to_table, to_keys),
        ) {
            (Some(from), Some(to)) => Ok(ForeignKeyModel { from, to }),
            _ => invalid,
        },
        _ => invalid,
    }
}

/// The foreign key of `from_table` that a line defines.
pub open spec fn foreign_key_line(from_table: Seq<char>, input: Seq<char>) -> Result<
    ForeignKeyModel,
    Seq<char>,
> {
    foreign_key_of_captures(
        from_table,
        input,
        regex_captures(FOREIGN_KEY_PATTERN@, trimmed_start(input)),
    )
}

impl ForeignKey {
    /// Reads a constraint line such as
    /// "CONSTRAINT `fk` FOREIGN KEY (`teamId`) REFERENCES `teams` (`id`),".
    pub fn from_sql_string(from_table: &str, input: &str) -> (r: Result<ForeignKey, String>)
        ensures
            outcome(r) == foreign_key_line(from_table@, input@),
    {
        let caps = captures(FOREIGN_KEY_PATTERN, trim_start(input));
        ForeignKey::from_captures(from_table, input, &caps)
    }

    /// The foreign key given by the groups of a match of `FOREIGN_KEY_PATTERN` in `input`.
    pub fn from_captures(
        from_table: &str,
        input: &str,
        caps: &Option<Vec<Option<String>>>,
    ) -> (r: Result<ForeignKey, String>)
        ensures
            outcome(r) == foreign_key_of_captures(from_table@, input@, caps.deep_view()),
    {
        let from_keys = group_of(caps, 1);
        let to_table = group_of(caps, 4);
        let to_keys = group_of(caps, 5);
        if let (Some(from_keys), Some(to_table), Some(to_keys)) = (from_keys, to_table, to_keys) {
            let from = KeyReference::from_sql_str(from_table, from_keys);
            let to = KeyReference::from_sql_str(to_table, to_keys);
            if let (Some(from), Some(to)) = (from, to) {
                return Ok(ForeignKey { from, to });
            }
        }
        Err(framed("Invalid foreign key spec: \"", input, "\""))
    }
}

// ---------------------------------------------------------------------------------------------
// Tables

/// The line at `i`, when there is one.
pub open spec fn line_at(lines: Seq<Seq<char>>, i: int) -> Option<Seq<char>> {
    if 0 <= i < lines.len() {
        Some(lines[i])
    } else {
        None
    }
}

/// The table's name, from group 1 of a match of `CREATE_TABLE_PATTERN` in the first line.
pub open spec fn table_name_of_captures(line: Seq<char>, caps: Option<Seq<Option<Seq<char>>>>) -> Result<
    Seq<char>,
    Seq<char>,
> {
    match group(caps, 1) {
        Some(name) => Ok(name),
        None => Err("Column name line not as expected:\n"@ + line),
    }
}

/// The table's name, from the statement's first line.
pub open spec fn table_name_of_line(line: Option<Seq<char>>) -> Result<Seq<char>, Seq<char>> {
    match line {
        None => Err("Column name line not found"@),
        Some(l) => table_name_of_captures(l, regex_captures(CREATE_TABLE_PATTERN@, l)),
    }
}

/// The end of the run of column lines that starts at `i`.
pub open spec fn columns_end(lines: Seq<Seq<char>>, i: int) -> int
    decreases lines.len() - i,
{
    if 0 <= i < lines.len() && column_line(lines[i]) is Ok {
        columns_end(lines, i + 1)
    } else {
        i
    }
}

/// The name of the column a line defines.
pub open spec fn column_name_of_line(line: Seq<char>) -> Seq<char> {
    match column_line(line) {
        Ok(name) => name,
        Err(_) => Seq::empty(),
    }
}

/// The primary key, from group 1 of a match of `PRIMARY_KEY_PATTERN` in its line.
pub open spec fn primary_key_of_captures(line: Seq<char>, caps: Option<Seq<Option<Seq<char>>>>) -> Result<
    Seq<Seq<char>>,
    Seq<char>,
> {
    match group(caps, 1) {
        Some(keys) => key_from_text(keys),
        None => Err("Unsupported primary key spec:\n"@ + line),
    }
}

/// The primary key, from the first line after the columns.
pub open spec fn primary_key_of_line(line: Option<Seq<char>>) -> Result<Seq<Seq<char>>, Seq<char>> {
    match line {
        None => Err("Primary Key line not found"@),
        Some(l) => primary_key_of_captures(l, regex_captures(PRIMARY_KEY_PATTERN@, l)),
    }
}

/// The foreign keys that the lines define; lines that define none are passed over.
pub open spec fn foreign_keys_of_lines(table: Seq<char>, lines: Seq<Seq<char>>) -> Seq<
    ForeignKeyModel,
>
    decreases lines.len(),
{
    if lines.len() == 0 {
        Seq::empty()
    } else {
        let before = foreign_keys_of_lines(table, lines.drop_last());
        match foreign_key_line(table, lines.last()) {
            Ok(fk) => before.push(fk),
            Err(_) => before,
        }
    }
}

/// The table that the lines of a `CREATE TABLE` statement describe.
pub open spec fn table_of_lines(lines: Seq<Seq<char>>) -> Result<TableModel, Seq<char>> {
    match table_name_of_line(line_at(lines, 0)) {
        Err(e) => Err(e),
        Ok(name) => {
            let e = columns_end(lines, 1);
            match primary_key_of_line(line_at(lines, e)) {
                Err(err) => Err(err),
                Ok(primary_key) => Ok(
                    TableModel {
                        name,
                        primary_key,
                        columns: lines.subrange(1, e).map_values(
                            |l: Seq<char>| column_name_of_line(l),
                        ),
                        foreign_keys: foreign_keys_of_lines(
                            name,
                            lines.subrange(e + 1, lines.len() as int),
                        ),
                    },
                ),
            }
        },
    }
}

/// The table a `CREATE TABLE` statement describes.
pub open spec fn table_of_description(text: Seq<char>) -> Result<TableModel, Seq<char>> {
    table_of_lines(lines(trimmed_start(text)))
}

impl Table {
    /// Reads the table that `SHOW CREATE TABLE` described.
    pub fn from_sql_string(input: &TableDescription) -> (r: Result<Table, String>)
        ensures
            outcome(r) == table_of_description(input@),
    {
        let lines = split_lines(trim_start(input.as_str()));
        let ghost ls = lines@.map_values(|l: &str| l@);
        let first = if lines.len() > 0 {
            Some(lines[0])
        } else {
            None
        };
        let name = match Self::parse_table_name_line(first) {
            Ok(name) => name,
            Err(e) => return Err(e),
        };
        let (columns, e) = Self::parse_columns(&lines, 1);
        let pk_line = if e < lines.len() {
            Some(lines[e])
        } else {
            None
        };
        let primary_key = match Self::parse_primary_key(pk_line) {
            Ok(key) => key,
            Err(err) => return Err(err),
        };
        let foreign_keys = Self::parse_foreign_keys(name.as_str(), &lines, e + 1);
        proof {
            assert(line_at(ls, 0) == (match first {
                Some(l) => Some(l@),
                None => None::<Seq<char>>,
            }));
        }
        Ok(Table { name: TableName(name), primary_key, columns, foreign_keys })
    }

    /// The table's name, from the statement's first line.
    pub fn parse_table_name_line(line: Option<&str>) -> (r: Result<String, String>)
        ensures
            outcome(r) == table_name_of_line(
                match line {
                    Some(l) => Some(l@),
                    None => None,
                },
            ),
    {
        match line {
            None => Err(String::from_str("Column name line not found")),
            Some(l) => Self::table_name_from_captures(l, &captures(CREATE_TABLE_PATTERN, l)),
        }
    }

    /// The table's name, from group 1 of a match of `CREATE_TABLE_PATTERN` in `line`.
    pub fn table_name_from_captures(line: &str, caps: &Option<Vec<Option<String>>>) -> (r: Result<
        String,
        String,
    >)
        ensures
            outcome(r) == table_name_of_captures(line@, caps.deep_view()),
    {
        match group_of(caps, 1) {
            Some(name) => Ok(name.to_owned()),
            None => Err(prefixed("Column name line not as expected:\n", line)),
        }
    }

    /// The primary key, from group 1 of a match of `PRIMARY_KEY_PATTERN` in `line`.
    pub fn primary_key_from_captures(line: &str, caps: &Option<Vec<Option<String>>>) -> (r: Result<
        Key,
        String,
    >)
        ensures
            outcome(r) == primary_key_of_captures(line@, caps.deep_view()),
    {
        match group_of(caps, 1) {
            Some(keys) => Key::try_from_sql_string(keys),
            None => Err(prefixed("Unsupported primary key spec:\n", line)),
        }
    }

    /// The columns defined by the lines from `start` on, up to the first line that defines
    /// none, and where that run ends.
    pub fn parse_columns(lines: &Vec<&str>, start: usize) -> (r: (Vec<Column>, usize))
        requires
            start <= lines@.len(),
        ensures
            r.1 == columns_end(lines@.map_values(|l: &str| l@), start as int),
            r.0.deep_view() == lines@.map_values(|l: &str| l@).subrange(start as int, r.1 as int).map_values(
                |l: Seq<char>| column_name_of_line(l),
            ),
    {
        let ghost ls = lines@.map_values(|l: &str| l@);
        let mut columns: Vec<Column> = Vec::new();
        let mut i = start;
        while i < lines.len()
            invariant_except_break
                ls == lines@.map_values(|l: &str| l@),
                start <= i <= lines@.len(),
                columns_end(ls, start as int) == columns_end(ls, i as int),
                columns.deep_view() =~= ls.subrange(start as int, i as int).map_values(
                    |l: Seq<char>| column_name_of_line(l),
                ),
            ensures
                ls == lines@.map_values(|l: &str| l@),
                start <= i <= lines@.len(),
                columns_end(ls, start as int) == i,
                columns.deep_view() =~= ls.subrange(start as int, i as int).map_values(
                    |l: Seq<char>| column_name_of_line(l),
                ),
            decreases lines@.len() - i,
        {
            match Column::from_sql_string(lines[i]) {
                Ok(column) => {
                    let ghost before = columns.deep_view();
                    columns.push(column);
                    proof {
                        assert(columns.deep_view() =~= before.push(column.deep_view()));
                        assert(ls.subrange(start as int, i + 1) =~= ls.subrange(start as int, i as int).push(
                            ls[i as int],
                        ));
                    }
                    i += 1;
                },
                Err(_) => {
                    break;
                },
            }
        }
        (columns, i)
    }

    /// The primary key, from the first line after the columns.
    pub fn parse_primary_key(line: Option<&str>) -> (r: Result<Key, String>)
        ensures
            outcome(r) == primary_key_of_line(
                match line {
                    Some(l) => Some(l@),
                    None => None,
                },
            ),
    {
        match line {
            None => Err(String::from_str("Primary Key line not found")),
            Some(l) => Self::primary_key_from_captures(l, &captures(PRIMARY_KEY_PATTERN, l)),
        }
    }

    /// The foreign keys defined by the lines from `start` on; other lines are passed over.
    pub fn parse_foreign_keys(table: &str, lines: &Vec<&str>, start: usize) -> (r: Vec<ForeignKey>)
        ensures
            r.deep_view() == foreign_keys_of_lines(
                table@,
                lines@.map_values(|l: &str| l@).subrange(
                    if start <= lines@.len() { start as int } else { lines@.len() as int },
                    lines@.len() as int,
                ),
            ),
    {
        let ghost ls = lines@.map_values(|l: &str| l@);
        let first = if start <= lines.len() {
            start
        } else {
            lines.len()
        };
        let mut out: Vec<ForeignKey> = Vec::new();
        let mut i = first;
        proof {
            assert(ls.subrange(first as int, first as int) =~= Seq::<Seq<char>>::empty());
            assert(out.deep_view() =~= Seq::<ForeignKeyModel>::empty());
        }
        while i < lines.len()
            invariant
                ls == lines@.map_values(|l: &str| l@),
                first <= i <= lines@.len(),
                out.deep_view() == foreign_keys_of_lines(table@, ls.subrange(first as int, i as int)),
            decreases lines@.len() - i,
        {
            proof {
                assert(ls.subrange(first as int, i + 1).drop_last() =~= ls.subrange(first as int, i as int));
                assert(ls.subrange(first as int, i + 1).last() == ls[i as int]);
            }
            let ghost before = out.deep_view();
            match ForeignKey::from_sql_string(table, lines[i]) {
                Ok(fk) => {
                    out.push(fk);
                    proof {
                        assert(out.deep_view() =~= before.push(fk.deep_view()));
                    }
                },
                Err(_) => {},
            }
            i += 1;
        }
        out
    }
}

} // verus!
