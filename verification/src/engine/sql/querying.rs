//! The names and texts that come back from a MySQL server, and the statements that ask for them.
//!
//! Only this module makes `SchemaObjectName`s and `TableDescription`s, from what the server
//! answered: names are then known to exist, and descriptions to be written by MySQL itself.
use vstd::prelude::*;

verus! {

/// Holds the name of a database or table, as the server listed it.
#[derive(Debug)]
pub struct SchemaObjectName(String);

/// Holds the description of a table, as returned by `SHOW CREATE TABLE`.
#[derive(Debug)]
pub struct TableDescription(String);

impl View for SchemaObjectName {
    type V = Seq<char>;

    closed spec fn view(&self) -> Seq<char> {
        self.0@
    }
}

impl View for TableDescription {
    type V = Seq<char>;

    closed spec fn view(&self) -> Seq<char> {
        self.0@
    }
}

/// A name as the server listed it.
pub fn to_id(db_identifier: String) -> (r: SchemaObjectName)
    ensures
        r@ == db_identifier@,
{
    SchemaObjectName(db_identifier)
}

impl SchemaObjectName {
    pub fn as_str(&self) -> (r: &str)
        ensures
            r@ == self@,
    {
        self.0.as_str()
    }
}

impl TableDescription {
    /// A description as the server gave it.
    pub fn new(create_table_query: String) -> (r: TableDescription)
        ensures
            r@ == create_table_query@,
    {
        TableDescription(create_table_query)
    }

    /// A description written by hand, for tests.
    pub fn new_for_tests(input: &str) -> (r: TableDescription)
        ensures
            r@ == input@,
    {
        TableDescription(input.to_owned())
    }

    pub fn as_str(&self) -> (r: &str)
        ensures
            r@ == self@,
    {
        self.0.as_str()
    }
}

// ---------------------------------------------------------------------------------------------
// Quoting names

/// The name with each backtick doubled, which is how MySQL reads a backtick inside a quoted
/// name.
pub open spec fn escaped(name: Seq<char>) -> Seq<char>
    decreases name.len(),
{
    if name.len() == 0 {
        name
    } else if name.last() == '`' {
        escaped(name.drop_last()) + seq!['`', '`']
    } else {
        escaped(name.drop_last()).push(name.last())
    }
}

/// How MySQL reads the inside of a backtick-quoted name: a doubled backtick is one backtick.
/// `None` when a backtick stands alone, which would end the quoted name early.
pub open spec fn unescaped(quoted: Seq<char>) -> Option<Seq<char>>
    decreases quoted.len(),
{
    if quoted.len() == 0 {
        Some(quoted)
    } else if quoted[0] == '`' {
        if quoted.len() >= 2 && quoted[1] == '`' {
            match unescaped(quoted.subrange(2, quoted.len() as int)) {
                Some(rest) => Some(seq!['`'] + rest),
                None => None,
            }
        } else {
            None
        }
    } else {
        match unescaped(quoted.subrange(1, quoted.len() as int)) {
            Some(rest) => Some(seq![quoted[0]] + rest),
            None => None,
        }
    }
}

proof fn lemma_unescaped_append(a: Seq<char>, b: Seq<char>)
    requires
        unescaped(a) is Some,
        unescaped(b) is Some,
    ensures
        unescaped(a + b) == Some(unescaped(a)->Some_0 + unescaped(b)->Some_0),
    decreases a.len(),
{
    if a.len() == 0 {
        assert(a + b =~= b);
    } else if a[0] == '`' {
        assert((a + b).subrange(2, (a + b).len() as int) =~= a.subrange(2, a.len() as int) + b);
        lemma_unescaped_append(a.subrange(2, a.len() as int), b);
        assert(seq!['`'] + (unescaped(a.subrange(2, a.len() as int))->Some_0 + unescaped(b)->Some_0)
            =~= (seq!['`'] + unescaped(a.subrange(2, a.len() as int))->Some_0) + unescaped(b)->Some_0);
    } else {
        assert((a + b).subrange(1, (a + b).len() as int) =~= a.subrange(1, a.len() as int) + b);
        lemma_unescaped_append(a.subrange(1, a.len() as int), b);
        assert(seq![a[0]] + (unescaped(a.subrange(1, a.len() as int))->Some_0 + unescaped(b)->Some_0)
            =~= (seq![a[0]] + unescaped(a.subrange(1, a.len() as int))->Some_0) + unescaped(b)->Some_0);
    }
}

/// Quoting is safe: MySQL reads an escaped name back as exactly that name, whatever it holds.
pub proof fn lemma_escaped_reads_back(name: Seq<char>)
    ensures
        unescaped(escaped(name)) == Some(name),
    decreases name.len(),
{
    if name.len() > 0 {
        lemma_escaped_reads_back(name.drop_last());
        let last = name.last();
        let tail = if last == '`' {
            seq!['`', '`']
        } else {
            seq![last]
        };
        assert(unescaped(tail) == Some(seq![last])) by {
            reveal_with_fuel(unescaped, 2);
            if last == '`' {
                assert(tail.subrange(2, 2) =~= Seq::<char>::empty());
                assert(seq!['`'] + Seq::<char>::empty() =~= seq![last]);
            } else {
                assert(tail.subrange(1, 1) =~= Seq::<char>::empty());
                assert(seq![last] + Seq::<char>::empty() =~= seq![last]);
            }
        }
        lemma_unescaped_append(escaped(name.drop_last()), tail);
        assert(escaped(name) =~= escaped(name.drop_last()) + tail);
        assert(name.drop_last() + seq![last] =~= name);
    }
}

/// Writes `name` with each backtick doubled.
pub fn write_escaped(out: &mut String, name: &str)
    ensures
        final(out)@ == old(out)@ + escaped(name@),
{
    let n = name.unicode_len();
    let mut i: usize = 0;
    proof {
        assert(name@.take(0) =~= Seq::<char>::empty());
        assert(out@ =~= old(out)@ + escaped(name@.take(0)));
    }
    while i < n
        invariant
            n == name@.len(),
            i <= n,
            out@ == old(out)@ + escaped(name@.take(i as int)),
        decreases n - i,
    {
        proof {
            assert(name@.take(i + 1).drop_last() =~= name@.take(i as int));
            assert(name@.take(i + 1).last() == name@[i as int]);
        }
        if name.get_char(i) == '`' {
            out.append("``");
            proof {
                reveal_strlit("``");
            }
        } else {
            let c = name.substring_char(i, i + 1);
            out.append(c);
            proof {
                assert(c@ =~= seq![name@[i as int]]);
            }
        }
        proof {
            assert(out@ =~= old(out)@ + escaped(name@.take(i + 1)));
        }
        i += 1;
    }
    proof {
        assert(name@.take(n as int) =~= name@);
    }
}

impl SchemaObjectName {
    /// The name, safe to put between backticks in a statement.
    pub fn to_sql(&self) -> (r: String)
        ensures
            r@ == escaped(self@),
    {
        let mut out = String::new();
        write_escaped(&mut out, self.0.as_str());
        proof {
            assert(out@ =~= escaped(self@));
        }
        out
    }
}

// ---------------------------------------------------------------------------------------------
// Statements

/// The statement that lists the tables of a database.
pub fn show_tables_statement(database: &SchemaObjectName) -> (r: String)
    ensures
        r@ == "SHOW TABLES IN "@ + escaped(database@),
{
    let mut out = String::from_str("SHOW TABLES IN ");
    write_escaped(&mut out, database.as_str());
    out
}

/// The statement that describes a table.
pub fn show_create_table_statement(database: &SchemaObjectName, table: &SchemaObjectName) -> (r:
    String)
    ensures
        r@ == "SHOW CREATE TABLE `"@ + escaped(database@) + "`.`"@ + escaped(table@) + "`"@,
{
    let mut out = String::from_str("SHOW CREATE TABLE `");
    write_escaped(&mut out, database.as_str());
    out.append("`.`");
    write_escaped(&mut out, table.as_str());
    out.append("`");
    out
}

/// The table's description from the server's answer, a row of the table's name and its
/// description, or an error when the server had no such table anymore.
pub fn table_description_from_row(
    row: Option<(String, String)>,
    database: &SchemaObjectName,
    table: &SchemaObjectName,
) -> (r: Result<TableDescription, crate::error::Error>)
    ensures
        match row {
            Some((_, description)) => r matches Ok(d) && d@ == description@,
            None => r matches Err(e) && *e.0 matches crate::error::ErrorKind::InternalError(ie)
                && ie.0@ == "Table disappeared `"@ + escaped(database@) + "`.`"@ + escaped(table@)
                + "`"@,
        },
{
    match row {
        Some((_, create_table_query)) => Ok(TableDescription::new(create_table_query)),
        None => {
            let mut message = String::from_str("Table disappeared `");
            write_escaped(&mut message, database.as_str());
            message.append("`.`");
            write_escaped(&mut message, table.as_str());
            message.append("`");
            Err(crate::error::Error::new(crate::error::ErrorKind::InternalError(crate::error::InternalError(message))))
        },
    }
}

} // verus!
