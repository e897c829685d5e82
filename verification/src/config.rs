//! The connection parameters of the relational store.

use vstd::prelude::*;

verus! {

/// The connection parameters as mathematical values.
pub struct DbConfigView {
    pub host: Seq<char>,
    pub port: Seq<char>,
    pub database: Seq<char>,
    pub user: Seq<char>,
    pub password: Seq<char>,
}

/// The connection parameters of the relational store.
#[derive(Debug, PartialEq, Eq)]
pub struct DbConfig {
    pub host: String,
    pub port: String,
    pub database: String,
    pub user: String,
    pub password: String,
}

impl View for DbConfig {
    type V = DbConfigView;

    open spec fn view(&self) -> DbConfigView {
        DbConfigView {
            host: self.host@,
            port: self.port@,
            database: self.database@,
            user: self.user@,
            password: self.password@,
        }
    }
}

/// The host that is used where none is given.
pub const DEFAULT_HOST: &'static str = "localhost";

/// The port that is used where none is given.
pub const DEFAULT_PORT: &'static str = "5432";

/// The database that is used where none is given.
pub const DEFAULT_DATABASE: &'static str = "mortar";

/// The user that is used where none is given.
pub const DEFAULT_USER: &'static str = "mortarchangeme";

/// The password that is used where none is given.
pub const DEFAULT_PASSWORD: &'static str = "mortarpasswordchangeme";

/// A given value, or the default where none is given.
pub open spec fn value_or(given: Option<String>, default: Seq<char>) -> Seq<char> {
    match given {
        Some(value) => value@,
        None => default,
    }
}

/// The connection string of the parameters: each as `key=value`, with one
/// space between them.
pub open spec fn connection_string_of(config: DbConfigView) -> Seq<char> {
    "host="@ + config.host + " port="@ + config.port + " dbname="@ + config.database + " user="@
        + config.user + " password="@ + config.password
}

/// A given value, or the default where none is given.
fn or_default(given: Option<String>, default: &str) -> (value: String)
    ensures
        value@ == value_or(given, default@),
{
    match given {
        Some(value) => value,
        None => default.to_owned(),
    }
}

impl DbConfig {
    /// The parameters that were given, with the default for each that was
    /// not.
    pub fn from_overrides(
        host: Option<String>,
        port: Option<String>,
        database: Option<String>,
        user: Option<String>,
        password: Option<String>,
    ) -> (config: DbConfig)
        ensures
            config@ == (DbConfigView {
                host: value_or(host, DEFAULT_HOST@),
                port: value_or(port, DEFAULT_PORT@),
                database: value_or(database, DEFAULT_DATABASE@),
                user: value_or(user, DEFAULT_USER@),
                password: value_or(password, DEFAULT_PASSWORD@),
            }),
    {
        DbConfig {
            host: or_default(host, DEFAULT_HOST),
            port: or_default(port, DEFAULT_PORT),
            database: or_default(database, DEFAULT_DATABASE),
            user: or_default(user, DEFAULT_USER),
            password: or_default(password, DEFAULT_PASSWORD),
        }
    }

    /// The connection string for these parameters.
    pub fn connection_string(&self) -> (text: String)
        ensures
            text@ == connection_string_of(self@),
    {
        let mut text = "host=".to_owned();
        text.append(self.host.as_str());
        text.append(" port=");
        text.append(self.port.as_str());
        text.append(" dbname=");
        text.append(self.database.as_str());
        text.append(" user=");
        text.append(self.user.as_str());
        text.append(" password=");
        text.append(self.password.as_str());
        text
    }
}

} // verus!
