//! Structures used to represent the structure of the database. Foreign keys tell us how to
//! join tables.
//!
//! Databases and tables are kept in lists, in the order they were analyzed; a lookup by name
//! takes the first entry with that name.
use vstd::prelude::*;

verus! {

#[derive(Debug, PartialEq, Eq)]
pub struct ColumnName(pub String);

#[derive(Debug, PartialEq, Eq, Hash)]
pub struct TableName(pub String);

impl DeepView for ColumnName {
    type V = Seq<char>;

    open spec fn deep_view(&self) -> Seq<char> {
        self.0@
    }
}

impl DeepView for TableName {
    type V = Seq<char>;

    open spec fn deep_view(&self) -> Seq<char> {
        self.0@
    }
}

impl ColumnName {
    pub fn copy(&self) -> (r: ColumnName)
        ensures
            r == *self,
    {
        ColumnName(self.0.clone())
    }
}

impl TableName {
    pub fn copy(&self) -> (r: TableName)
        ensures
            r == *self,
    {
        TableName(self.0.clone())
    }

    pub fn as_str(&self) -> (r: &str)
        ensures
            r@ == self.0@,
    {
        self.0.as_str()
    }
}

/// Parameters used to connect to a server.
#[derive(Debug)]
pub struct ServerParams {
    pub hostname: String,
    pub port: u16,
    /// Different users may have access to different databases and tables.
    pub user: String,
    /// The database that tables given without one belong to.
    pub default_database: TableName,
}

pub struct ServerParamsModel {
    pub hostname: Seq<char>,
    pub port: u16,
    pub user: Seq<char>,
    pub default_database: Seq<char>,
}

impl DeepView for ServerParams {
    type V = ServerParamsModel;

    open spec fn deep_view(&self) -> ServerParamsModel {
        ServerParamsModel {
            hostname: self.hostname@,
            port: self.port,
            user: self.user@,
            default_database: self.default_database.deep_view(),
        }
    }
}

impl ServerParams {
    pub fn copy(&self) -> (r: ServerParams)
        ensures
            r.deep_view() == self.deep_view(),
    {
        ServerParams {
            hostname: self.hostname.clone(),
            port: self.port,
            user: self.user.clone(),
            default_database: self.default_database.copy(),
        }
    }
}

#[derive(Debug)]
pub struct Column {
    pub name: ColumnName,
}

impl DeepView for Column {
    type V = Seq<char>;

    open spec fn deep_view(&self) -> Seq<char> {
        self.name.deep_view()
    }
}

#[derive(Debug)]
pub struct Key {
    pub columns: Vec<ColumnName>,
}

impl DeepView for Key {
    type V = Seq<Seq<char>>;

    open spec fn deep_view(&self) -> Seq<Seq<char>> {
        self.columns.deep_view()
    }
}

impl Key {
    pub fn copy(&self) -> (r: Key)
        ensures
            r.deep_view() == self.deep_view(),
    {
        let mut columns: Vec<ColumnName> = Vec::new();
        let n = self.columns.len();
        let mut k: usize = 0;
        while k < n
            invariant
                n == self.columns@.len(),
                k <= n,
                columns.deep_view() =~= self.columns.deep_view().take(k as int),
            decreases n - k,
        {
            let c = self.columns[k].copy();
            let ghost before = columns.deep_view();
            columns.push(c);
            proof {
                assert(columns.deep_view() =~= before.push(c.deep_view()));
                assert(self.columns.deep_view().take(k + 1) =~= self.columns.deep_view().take(
                    k as int,
                ).push(self.columns.deep_view()[k as int]));
            }
            k += 1;
        }
        assert(self.columns.deep_view().take(n as int) =~= self.columns.deep_view());
        Key { columns }
    }
}

#[derive(Debug)]
pub struct KeyReference {
    pub table: TableName,
    pub key: Key,
}

pub struct KeyReferenceModel {
    pub table: Seq<char>,
    pub key: Seq<Seq<char>>,
}

impl DeepView for KeyReference {
    type V = KeyReferenceModel;

    open spec fn deep_view(&self) -> KeyReferenceModel {
        KeyReferenceModel { table: self.table.deep_view(), key: self.key.deep_view() }
    }
}

impl KeyReference {
    pub fn copy(&self) -> (r: KeyReference)
        ensures
            r.deep_view() == self.deep_view(),
    {
        KeyReference { table: self.table.copy(), key: self.key.copy() }
    }
}

/// The columns `from` of one table refer to the columns `to` of another.
#[derive(Debug)]
pub struct ForeignKey {
    pub from: KeyReference,
    pub to: KeyReference,
}

pub struct ForeignKeyModel {
    pub from: KeyReferenceModel,
    pub to: KeyReferenceModel,
}

impl DeepView for ForeignKey {
    type V = ForeignKeyModel;

    open spec fn deep_view(&self) -> ForeignKeyModel {
        ForeignKeyModel { from: self.from.deep_view(), to: self.to.deep_view() }
    }
}

#[derive(Debug)]
pub struct Table {
    pub name: TableName,
    pub primary_key: Key,
    pub columns: Vec<Column>,
    pub foreign_keys: Vec<ForeignKey>,
}

pub struct TableModel {
    pub name: Seq<char>,
    pub primary_key: Seq<Seq<char>>,
    pub columns: Seq<Seq<char>>,
    pub foreign_keys: Seq<ForeignKeyModel>,
}

impl DeepView for Table {
    type V = TableModel;

    open spec fn deep_view(&self) -> TableModel {
        TableModel {
            name: self.name.deep_view(),
            primary_key: self.primary_key.deep_view(),
            columns: self.columns.deep_view(),
            foreign_keys: self.foreign_keys.deep_view(),
        }
    }
}

/// The index of the first foreign key that refers to the table named `to_table`.
pub open spec fn first_key_to(fks: Seq<ForeignKeyModel>, to_table: Seq<char>) -> Option<int> {
    if exists|k: int| 0 <= k < fks.len() && fks[k].to.table == to_table {
        let k = choose|k: int|
            0 <= k < fks.len() && fks[k].to.table == to_table && forall|m: int|
                0 <= m < k ==> fks[m].to.table != to_table;
        Some(k)
    } else {
        None
    }
}

/// Finds the index of the first foreign key that refers to the given table.
pub fn first_key_to_exec(fks: &Vec<ForeignKey>, to_table: &str) -> (r: Option<usize>)
    ensures
        match r {
            Some(k) => k < fks@.len() && fks.deep_view()[k as int].to.table == to_table@
                && forall|m: int| 0 <= m < k ==> fks.deep_view()[m].to.table != to_table@,
            None => forall|m: int| 0 <= m < fks@.len() ==> fks.deep_view()[m].to.table != to_table@,
        },
        as_index(r) == first_key_to(fks.deep_view(), to_table@),
{
    let n = fks.len();
    let mut k: usize = 0;
    while k < n
        invariant
            n == fks@.len(),
            k <= n,
            forall|m: int| 0 <= m < k ==> fks.deep_view()[m].to.table != to_table@,
        decreases n - k,
    {
        if crate::engine::syntax::str_eq(fks[k].to.table.as_str(), to_table) {
            proof {
                lemma_first_key_to_unique(fks.deep_view(), to_table@, k as int);
            }
            return Some(k);
        }
        k += 1;
    }
    None
}

pub open spec fn as_index(r: Option<usize>) -> Option<int> {
    match r {
        Some(k) => Some(k as int),
        None => None,
    }
}

pub proof fn lemma_first_key_to_unique(fks: Seq<ForeignKeyModel>, to_table: Seq<char>, k: int)
    requires
        0 <= k < fks.len(),
        fks[k].to.table == to_table,
        forall|m: int| 0 <= m < k ==> fks[m].to.table != to_table,
    ensures
        first_key_to(fks, to_table) == Some(k),
{
    let j = choose|j: int|
        0 <= j < fks.len() && fks[j].to.table == to_table && forall|m: int|
            0 <= m < j ==> fks[m].to.table != to_table;
    assert(0 <= j < fks.len() && fks[j].to.table == to_table && forall|m: int|
        0 <= m < j ==> fks[m].to.table != to_table);
    if j < k {
        assert(fks[j].to.table != to_table);
    }
    if k < j {
        assert(fks[k].to.table != to_table);
    }
}

impl Table {
    /// The first foreign key of this table that refers to `to_table`.
    pub fn get_foreign_key(&self, to_table: &str) -> (r: Option<&ForeignKey>)
        ensures
            match first_key_to(self.foreign_keys.deep_view(), to_table@) {
                Some(k) => r == Some(&self.foreign_keys@[k]),
                None => r is None,
            },
    {
        match first_key_to_exec(&self.foreign_keys, to_table) {
            Some(k) => Some(&self.foreign_keys[k]),
            None => None,
        }
    }
}

#[derive(Debug)]
pub struct Database {
    pub name: TableName,
    pub tables: Vec<Table>,
}

pub struct DatabaseModel {
    pub name: Seq<char>,
    pub tables: Seq<TableModel>,
}

impl DeepView for Database {
    type V = DatabaseModel;

    open spec fn deep_view(&self) -> DatabaseModel {
        DatabaseModel { name: self.name.deep_view(), tables: self.tables.deep_view() }
    }
}

/// All we learned from analyzing a database server.
#[derive(Debug)]
pub struct Server {
    pub params: ServerParams,
    pub databases: Vec<Database>,
}

pub struct ServerModel {
    pub params: ServerParamsModel,
    pub databases: Seq<DatabaseModel>,
}

impl DeepView for Server {
    type V = ServerModel;

    open spec fn deep_view(&self) -> ServerModel {
        ServerModel { params: self.params.deep_view(), databases: self.databases.deep_view() }
    }
}

} // verus!

verus! {

/// How a server is shown to the user: `user@host`, with `:port` unless it is MySQL's default,
/// 3306.
pub open spec fn server_params_text(p: ServerParamsModel) -> Seq<char> {
    if p.port == 3306 {
        p.user + "@"@ + p.hostname
    } else {
        p.user + "@"@ + p.hostname + ":"@ + crate::engine::rendering::query_rendering::decimal_text(
            p.port as nat,
        )
    }
}

impl ServerParams {
    /// The server as it is shown to the user.
    pub fn to_text(&self) -> (r: String)
        ensures
            r@ == server_params_text(self.deep_view()),
    {
        let mut out = self.user.clone();
        out.append("@");
        out.append(self.hostname.as_str());
        if self.port != 3306 {
            out.append(":");
            crate::engine::rendering::query_rendering::write_decimal(&mut out, self.port as usize);
        }
        proof {
            assert(out@ =~= server_params_text(self.deep_view()));
        }
        out
    }
}

} // verus!

verus! {

// ---------------------------------------------------------------------------------------------
// Names are unique

/// No two tables share a name.
pub open spec fn unique_table_names(tables: Seq<TableModel>) -> bool {
    forall|i: int, j: int|
        0 <= i < j < tables.len() ==> (#[trigger] tables[i]).name != (#[trigger] tables[j]).name
}

/// No two databases share a name.
pub open spec fn unique_database_names(databases: Seq<DatabaseModel>) -> bool {
    forall|i: int, j: int|
        0 <= i < j < databases.len() ==> (#[trigger] databases[i]).name != (
        #[trigger] databases[j]).name
}

impl DatabaseModel {
    /// A database holds each table once: tables are known by their names.
    pub open spec fn well_formed(self) -> bool {
        unique_table_names(self.tables)
    }
}

impl ServerModel {
    /// A server holds each database once, and each database holds each table once.
    pub open spec fn well_formed(self) -> bool {
        &&& unique_database_names(self.databases)
        &&& forall|k: int| 0 <= k < self.databases.len() ==> (#[trigger] self.databases[k]).well_formed()
    }
}

/// The tables with `table` added, or put in place of the one of the same name.
pub open spec fn with_table(tables: Seq<TableModel>, table: TableModel) -> Seq<TableModel> {
    if exists|k: int| 0 <= k < tables.len() && tables[k].name == table.name {
        tables.update(choose|k: int| 0 <= k < tables.len() && tables[k].name == table.name, table)
    } else {
        tables.push(table)
    }
}

/// The databases with `database` added, or put in place of the one of the same name.
pub open spec fn with_database(databases: Seq<DatabaseModel>, database: DatabaseModel) -> Seq<
    DatabaseModel,
> {
    if exists|k: int| 0 <= k < databases.len() && databases[k].name == database.name {
        databases.update(
            choose|k: int| 0 <= k < databases.len() && databases[k].name == database.name,
            database,
        )
    } else {
        databases.push(database)
    }
}

fn str_equal(a: &str, b: &str) -> (r: bool)
    ensures
        r == (a@ == b@),
{
    crate::engine::syntax::str_eq(a, b)
}

impl Database {
    /// A database without tables.
    pub fn new(name: TableName) -> (r: Database)
        ensures
            r.deep_view() == (DatabaseModel { name: name.deep_view(), tables: Seq::empty() }),
            r.deep_view().well_formed(),
    {
        let r = Database { name, tables: Vec::new() };
        proof {
            assert(r.tables.deep_view() =~= Seq::<TableModel>::empty());
        }
        r
    }

    /// Adds a table, in place of the one of the same name if there is one.
    pub fn insert_table(&mut self, table: Table)
        requires
            old(self).deep_view().well_formed(),
        ensures
            final(self).deep_view() == (DatabaseModel {
                name: old(self).deep_view().name,
                tables: with_table(old(self).deep_view().tables, table.deep_view()),
            }),
            final(self).deep_view().well_formed(),
    {
        let ghost tables = self.tables.deep_view();
        let ghost t = table.deep_view();
        let n = self.tables.len();
        let mut k: usize = 0;
        while k < n
            invariant
                n == self.tables@.len(),
                k <= n,
                tables == self.tables.deep_view(),
                tables == old(self).deep_view().tables,
                *self == *old(self),
                t == table.deep_view(),
                unique_table_names(tables),
                forall|m: int| 0 <= m < k ==> tables[m].name != t.name,
            decreases n - k,
        {
            if str_equal(self.tables[k].name.as_str(), table.name.as_str()) {
                proof {
                    assert(tables[k as int].name == t.name);
                    let c = choose|c: int| 0 <= c < tables.len() && tables[c].name == t.name;
                    if c != k {
                        if c < k {
                            assert(tables[c].name != t.name);
                        } else {
                            assert(tables[k as int].name != tables[c].name);
                        }
                    }
                }
                self.tables.set(k, table);
                proof {
                    assert(self.tables.deep_view() =~= tables.update(k as int, t));
                    assert(exists|c: int| 0 <= c < tables.len() && tables[c].name == t.name);
                    assert forall|i: int, j: int| 0 <= i < j < self.tables.deep_view().len() implies (#[trigger] self.tables.deep_view()[i]).name != (#[trigger] self.tables.deep_view()[j]).name by {
                        assert(tables[i].name != tables[j].name);
                    }
                }
                return;
            }
            k += 1;
        }
        let ghost before = self.tables.deep_view();
        self.tables.push(table);
        proof {
            assert(self.tables.deep_view() =~= before.push(t));
            assert(forall|i: int, j: int|
                0 <= i < j < self.tables.deep_view().len() ==> (#[trigger] self.tables.deep_view()[i]).name
                    != (#[trigger] self.tables.deep_view()[j]).name);
        }
    }
}

impl Server {
    /// A server without databases.
    pub fn new(params: ServerParams) -> (r: Server)
        ensures
            r.params.deep_view() == params.deep_view(),
            r.deep_view().databases == Seq::<DatabaseModel>::empty(),
            r.deep_view().well_formed(),
    {
        let r = Server { params, databases: Vec::new() };
        proof {
            assert(r.databases.deep_view() =~= Seq::<DatabaseModel>::empty());
        }
        r
    }

    /// Adds a database, in place of the one of the same name if there is one.
    pub fn insert_database(&mut self, database: Database)
        requires
            old(self).deep_view().well_formed(),
            database.deep_view().well_formed(),
        ensures
            final(self).deep_view() == (ServerModel {
                params: old(self).deep_view().params,
                databases: with_database(old(self).deep_view().databases, database.deep_view()),
            }),
            final(self).deep_view().well_formed(),
    {
        let ghost dbs = self.databases.deep_view();
        let ghost d = database.deep_view();
        let n = self.databases.len();
        let mut k: usize = 0;
        while k < n
            invariant
                n == self.databases@.len(),
                k <= n,
                dbs == self.databases.deep_view(),
                dbs == old(self).deep_view().databases,
                *self == *old(self),
                d == database.deep_view(),
                unique_database_names(dbs),
                old(self).deep_view().well_formed(),
                d.well_formed(),
                forall|m: int| 0 <= m < k ==> dbs[m].name != d.name,
            decreases n - k,
        {
            if str_equal(self.databases[k].name.as_str(), database.name.as_str()) {
                proof {
                    assert(dbs[k as int].name == d.name);
                    let c = choose|c: int| 0 <= c < dbs.len() && dbs[c].name == d.name;
                    if c != k {
                        if c < k {
                            assert(dbs[c].name != d.name);
                        } else {
                            assert(dbs[k as int].name != dbs[c].name);
                        }
                    }
                }
                self.databases.set(k, database);
                proof {
                    assert(self.databases.deep_view() =~= dbs.update(k as int, d));
                    assert(exists|c: int| 0 <= c < dbs.len() && dbs[c].name == d.name);
                    assert forall|i: int, j: int| 0 <= i < j < self.databases.deep_view().len() implies (#[trigger] self.databases.deep_view()[i]).name != (#[trigger] self.databases.deep_view()[j]).name by {
                        assert(dbs[i].name != dbs[j].name);
                    }
                    assert forall|m: int| 0 <= m < self.databases.deep_view().len() implies (#[trigger] self.databases.deep_view()[m]).well_formed() by {
                        if m != k {
                            assert(self.databases.deep_view()[m] == dbs[m]);
                            assert(old(self).deep_view().databases[m].well_formed());
                        }
                    }
                }
                return;
            }
            k += 1;
        }
        let ghost before = self.databases.deep_view();
        self.databases.push(database);
        proof {
            assert(self.databases.deep_view() =~= before.push(d));
            assert forall|m: int| 0 <= m < self.databases.deep_view().len() implies (#[trigger] self.databases.deep_view()[m]).well_formed() by {
                if m < n {
                    assert(self.databases.deep_view()[m] == dbs[m]);
                }
            }
        }
    }
}

} // verus!

verus! {

impl Database {
    /// Whether no two tables share a name.
    pub fn is_well_formed(&self) -> (r: bool)
        ensures
            r == self.deep_view().well_formed(),
    {
        let ghost ts = self.tables.deep_view();
        let n = self.tables.len();
        let mut i: usize = 0;
        while i < n
            invariant
                n == ts.len(),
                ts == self.tables.deep_view(),
                i <= n,
                forall|a: int, b: int| 0 <= a < i && a < b < n ==> (#[trigger] ts[a]).name != (#[trigger] ts[b]).name,
            decreases n - i,
        {
            let mut j: usize = i + 1;
            while j < n
                invariant
                    n == ts.len(),
                    ts == self.tables.deep_view(),
                    i < n,
                    i + 1 <= j <= n,
                    forall|a: int, b: int| 0 <= a < i && a < b < n ==> (#[trigger] ts[a]).name != (#[trigger] ts[b]).name,
                    forall|b: int| i < b < j ==> ts[i as int].name != (#[trigger] ts[b]).name,
                decreases n - j,
            {
                if str_equal(self.tables[i].name.as_str(), self.tables[j].name.as_str()) {
                    proof {
                        assert(ts[i as int].name == ts[j as int].name);
                    }
                    return false;
                }
                j += 1;
            }
            i += 1;
        }
        true
    }
}

impl Server {
    /// Whether each database, and each table in a database, is there once.
    pub fn is_well_formed(&self) -> (r: bool)
        ensures
            r == self.deep_view().well_formed(),
    {
        let ghost ds = self.databases.deep_view();
        let n = self.databases.len();
        let mut i: usize = 0;
        while i < n
            invariant
                n == ds.len(),
                ds == self.databases.deep_view(),
                i <= n,
                forall|a: int, b: int| 0 <= a < i && a < b < n ==> (#[trigger] ds[a]).name != (#[trigger] ds[b]).name,
                forall|a: int| 0 <= a < i ==> (#[trigger] ds[a]).well_formed(),
            decreases n - i,
        {
            if !self.databases[i].is_well_formed() {
                proof {
                    assert(!ds[i as int].well_formed());
                }
                return false;
            }
            let mut j: usize = i + 1;
            while j < n
                invariant
                    n == ds.len(),
                    ds == self.databases.deep_view(),
                    i < n,
                    i + 1 <= j <= n,
                    forall|a: int, b: int| 0 <= a < i && a < b < n ==> (#[trigger] ds[a]).name != (#[trigger] ds[b]).name,
                    forall|b: int| i < b < j ==> ds[i as int].name != (#[trigger] ds[b]).name,
                decreases n - j,
            {
                if str_equal(self.databases[i].name.as_str(), self.databases[j].name.as_str()) {
                    proof {
                        assert(ds[i as int].name == ds[j as int].name);
                    }
                    return false;
                }
                j += 1;
            }
            i += 1;
        }
        true
    }
}

} // verus!
