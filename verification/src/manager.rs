//! The pool connection manager and the configuration values it carries.
//!
//! The surrounding driver parses connection strings and opens connections;
//! here the configuration is held as the plain values this crate reads: the
//! raw connection text, a database name, and the optional authentication
//! database override.

use vstd::prelude::*;

verus! {

/// A connection string, held as the raw text the driver parses elsewhere.
#[derive(Clone, Debug)]
pub struct ConnectionString {
    /// The raw connection text.
    pub uri: String,
}

/// The client options the authentication layer reads.
#[derive(Clone, Debug)]
pub struct ClientOptions {
    /// The database authentication commands go to, when overridden.
    pub auth_source: Option<String>,
}

/// A basic pool connection manager: it remembers how to connect and which
/// database to hand out.
#[derive(Clone, Debug)]
pub struct MongoConnectionManager {
    /// The connection string new connections are opened with.
    pub conn_str: ConnectionString,
    /// The name of the database handed out for each connection.
    pub db_name: String,
    /// The options new clients are configured with.
    pub client_options: Option<ClientOptions>,
}

impl MongoConnectionManager {
    /// Builds a manager that opens connections with `connection_str` and
    /// hands out the database named `db_name`.
    pub fn new(
        connection_str: ConnectionString,
        db_name: String,
        client_options: Option<ClientOptions>,
    ) -> (r: Self)
        ensures
            r.conn_str == connection_str,
            r.db_name == db_name,
            r.client_options == client_options,
    {
        MongoConnectionManager { conn_str: connection_str, db_name, client_options }
    }
}

} // verus!
