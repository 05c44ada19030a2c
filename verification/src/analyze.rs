//! Learning the structure of a database server: which databases to analyze, and the tables
//! that their descriptions give.
pub use crate::engine::sql::querying::{SchemaObjectName, TableDescription};
pub use crate::engine::sql::structure::{
    Column, ColumnName, Database, ForeignKey, Key, KeyReference, Server, ServerParams, Table,
    TableName,
};
pub use crate::engine::sql::DbStructureParsingContext;
use crate::engine::sql::parsing::table_of_description;
use crate::engine::sql::structure::{with_table, DatabaseModel, TableModel};
use vstd::prelude::*;

verus! {

/// The items whose positions are among those selected, in their order.
pub open spec fn selected<T>(items: Seq<T>, selection: Seq<usize>) -> Seq<T>
    decreases items.len(),
{
    if items.len() == 0 {
        Seq::empty()
    } else if selection.contains((items.len() - 1) as usize) {
        selected(items.drop_last(), selection).push(items.last())
    } else {
        selected(items.drop_last(), selection)
    }
}

fn contains(selection: &Vec<usize>, k: usize) -> (r: bool)
    ensures
        r == selection@.contains(k),
{
    let mut i: usize = 0;
    while i < selection.len()
        invariant
            i <= selection@.len(),
            forall|j: int| 0 <= j < i ==> selection@[j] != k,
        decreases selection@.len() - i,
    {
        if selection[i] == k {
            return true;
        }
        i += 1;
    }
    false
}

/// The databases at the selected positions of the list, in the list's order.
pub fn select_databases(databases: &Vec<SchemaObjectName>, selection: &Vec<usize>) -> (r: Vec<
    SchemaObjectName,
>)
    ensures
        r@.map_values(|d: SchemaObjectName| d@) == selected(
            databases@.map_values(|d: SchemaObjectName| d@),
            selection@,
        ),
{
    let ghost names = databases@.map_values(|d: SchemaObjectName| d@);
    let mut out: Vec<SchemaObjectName> = Vec::new();
    let n = databases.len();
    let mut k: usize = 0;
    proof {
        assert(names.take(0) =~= Seq::<Seq<char>>::empty());
        assert(out@.map_values(|d: SchemaObjectName| d@) =~= Seq::<Seq<char>>::empty());
    }
    while k < n
        invariant
            n == databases@.len(),
            names == databases@.map_values(|d: SchemaObjectName| d@),
            k <= n,
            out@.map_values(|d: SchemaObjectName| d@) == selected(names.take(k as int), selection@),
        decreases n - k,
    {
        proof {
            assert(names.take(k + 1).drop_last() =~= names.take(k as int));
            assert(names.take(k + 1).last() == names[k as int]);
        }
        if contains(selection, k) {
            let ghost before = out@.map_values(|d: SchemaObjectName| d@);
            let name = crate::engine::sql::querying::to_id(databases[k].as_str().to_owned());
            out.push(name);
            proof {
                assert(out@.map_values(|d: SchemaObjectName| d@) =~= before.push(name@));
            }
        }
        k += 1;
    }
    proof {
        assert(names.take(n as int) =~= names);
    }
    out
}

/// The tables that the descriptions give, in order, a later table taking the place of an earlier
/// one of the same name; or the error of the first description that cannot be read.
pub open spec fn tables_of_descriptions(descriptions: Seq<Seq<char>>) -> Result<
    Seq<TableModel>,
    Seq<char>,
>
    decreases descriptions.len(),
{
    if descriptions.len() == 0 {
        Ok(Seq::empty())
    } else {
        match tables_of_descriptions(descriptions.drop_last()) {
            Err(e) => Err(e),
            Ok(tables) => match table_of_description(descriptions.last()) {
                Ok(t) => Ok(with_table(tables, t)),
                Err(e) => Err(e),
            },
        }
    }
}

proof fn lemma_tables_prefix_err(descriptions: Seq<Seq<char>>, k: int)
    requires
        0 <= k <= descriptions.len(),
        tables_of_descriptions(descriptions.take(k)) is Err,
    ensures
        tables_of_descriptions(descriptions) == tables_of_descriptions(descriptions.take(k)),
    decreases descriptions.len(),
{
    if k == descriptions.len() {
        assert(descriptions.take(k) =~= descriptions);
    } else {
        assert(descriptions.drop_last().take(k) =~= descriptions.take(k));
        lemma_tables_prefix_err(descriptions.drop_last(), k);
    }
}

/// The database named `name` with the tables its descriptions give, each name once, or the error
/// of the first description that cannot be read.
pub fn database_from_descriptions(name: &SchemaObjectName, descriptions: &Vec<TableDescription>) -> (r:
    Result<Database, String>)
    ensures
        match tables_of_descriptions(descriptions@.map_values(|d: TableDescription| d@)) {
            Ok(tables) => r matches Ok(db) && db.deep_view() == (DatabaseModel { name: name@, tables })
                && db.deep_view().well_formed(),
            Err(e) => r matches Err(err) && err@ == e,
        },
{
    let ghost texts = descriptions@.map_values(|d: TableDescription| d@);
    let mut database = Database::new(TableName(name.as_str().to_owned()));
    let n = descriptions.len();
    let mut k: usize = 0;
    proof {
        assert(texts.take(0) =~= Seq::<Seq<char>>::empty());
    }
    while k < n
        invariant
            n == descriptions@.len(),
            texts == descriptions@.map_values(|d: TableDescription| d@),
            k <= n,
            database.deep_view().name == name@,
            database.deep_view().well_formed(),
            tables_of_descriptions(texts.take(k as int)) == Ok::<_, Seq<char>>(
                database.deep_view().tables,
            ),
        decreases n - k,
    {
        proof {
            assert(texts.take(k + 1).drop_last() =~= texts.take(k as int));
            assert(texts.take(k + 1).last() == texts[k as int]);
        }
        match Table::from_sql_string(&descriptions[k]) {
            Ok(table) => {
                database.insert_table(table);
            },
            Err(e) => {
                proof {
                    lemma_tables_prefix_err(texts, k + 1);
                }
                return Err(e);
            },
        }
        k += 1;
    }
    proof {
        assert(texts.take(n as int) =~= texts);
    }
    Ok(database)
}

} // verus!
