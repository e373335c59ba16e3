use vstd::prelude::*;

verus! {

/// Engine family of a connection: the two supported relational database
/// driver ecosystems.
#[derive(Clone, Copy, PartialEq, Eq, Structural)]
pub enum DatabaseType {
    Postgres,
    Mysql,
}

/// Saved, non-secret identity of a connection. The password never appears
/// here; it is held by the operating system's credential store, keyed by
/// `id`. Timestamps are milliseconds since the Unix epoch.
pub struct ConnectionConfig {
    pub id: String,
    pub name: String,
    pub db_type: DatabaseType,
    pub host: String,
    pub port: u16,
    pub database: String,
    pub username: String,
    pub created_at: Option<i64>,
    pub last_connected: Option<i64>,
}

/// Mathematical image of a `ConnectionConfig`: strings as character
/// sequences, everything else as plain values.
pub ghost struct ConfigView {
    pub id: Seq<char>,
    pub name: Seq<char>,
    pub db_type: DatabaseType,
    pub host: Seq<char>,
    pub port: u16,
    pub database: Seq<char>,
    pub username: Seq<char>,
    pub created_at: Option<i64>,
    pub last_connected: Option<i64>,
}

impl View for ConnectionConfig {
    type V = ConfigView;

    open spec fn view(&self) -> ConfigView {
        ConfigView {
            id: self.id@,
            name: self.name@,
            db_type: self.db_type,
            host: self.host@,
            port: self.port,
            database: self.database@,
            username: self.username@,
            created_at: self.created_at,
            last_connected: self.last_connected,
        }
    }
}

impl ConnectionConfig {
    /// Field-for-field copy; the result denotes the same configuration.
    pub fn duplicate(&self) -> (c: ConnectionConfig)
        ensures
            c@ == self@,
    {
        ConnectionConfig {
            id: self.id.clone(),
            name: self.name.clone(),
            db_type: self.db_type,
            host: self.host.clone(),
            port: self.port,
            database: self.database.clone(),
            username: self.username.clone(),
            created_at: self.created_at,
            last_connected: self.last_connected,
        }
    }
}

/// Parameters for creating a new connection.
pub struct CreateConnectionParams {
    pub name: String,
    pub db_type: DatabaseType,
    pub host: String,
    pub port: u16,
    pub database: String,
    pub username: String,
    pub password: String,
}

/// Parameters for testing a connection without saving it.
pub struct TestConnectionParams {
    pub db_type: DatabaseType,
    pub host: String,
    pub port: u16,
    pub database: String,
    pub username: String,
    pub password: String,
}

/// Parameters for executing a query. `limit` and `offset` are advisory to
/// the caller's own SQL: the statement is executed exactly as given.
pub struct ExecuteQueryParams {
    pub connection_id: String,
    pub sql: String,
    pub limit: i64,
    pub offset: i64,
}

/// Parameters for fetching a page of table data.
pub struct GetTableDataParams {
    pub connection_id: String,
    pub table_name: String,
    pub schema: String,
    pub limit: i64,
    pub offset: i64,
}

/// Default row limit for callers that page through results.
pub fn default_limit() -> (n: i64)
    ensures
        n == 100,
{
    100
}

/// Default schema name for table-data requests.
pub fn default_schema() -> (s: String)
    ensures
        s@ == "public"@,
{
    String::from_str("public")
}

/// One engine-agnostic value: null, boolean, number or string. A `Float`
/// carries the IEEE 754 bit pattern of the driver's 64-bit float, so that
/// the value survives unchanged where this crate admits no float type.
pub enum CellValue {
    Null,
    Bool(bool),
    Int(i64),
    Float(u64),
    Text(String),
}

/// One field of a result row: a column name paired with its normalized value.
pub struct RowField {
    pub column: String,
    pub value: CellValue,
}

/// Metadata of one result column.
pub struct ColumnInfo {
    pub name: String,
    pub data_type: String,
    pub nullable: bool,
}

/// One table or view of the target database.
pub struct TableInfo {
    pub name: String,
    pub schema: String,
    pub table_type: String,
    pub row_count: Option<i64>,
}

/// Engine-agnostic result of one query: ordered column metadata, ordered
/// rows of named values, the row count and the wall-clock duration.
pub struct QueryResult {
    pub columns: Vec<ColumnInfo>,
    pub rows: Vec<Vec<RowField>>,
    pub row_count: usize,
    pub execution_time_ms: u128,
}

/// A page of table data.
pub struct TableDataResult {
    pub columns: Vec<ColumnInfo>,
    pub rows: Vec<Vec<RowField>>,
    pub total_count: i64,
    pub has_more: bool,
}

/// Outcome of a connection test: every failure mode is folded into
/// `success == false` with the driver's message.
pub struct TestConnectionResult {
    pub success: bool,
    pub error: Option<String>,
}

} // verus!
