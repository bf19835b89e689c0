//! Configuration of the subway server, read from the environment.
use vstd::prelude::*;
use crate::env::{env_value, lookup, port_or_default, port_setting};

verus! {

/// The environment variables that the configuration is read from.
#[derive(Clone, Copy, Debug, PartialEq, Eq, Structural)]
pub enum EnvironmentVariable {
    ServerPort,
    DbConnectionUrl,
}

impl EnvironmentVariable {
    /// The name of the variable in the environment.
    pub open spec fn name(self) -> Seq<char> {
        match self {
            EnvironmentVariable::ServerPort => "SERVER_PORT"@,
            EnvironmentVariable::DbConnectionUrl => "DB_CONNECTION_URL"@,
        }
    }

    /// The name of the variable in the environment.
    pub fn as_str(&self) -> (s: &'static str)
        ensures
            s@ == self.name(),
    {
        match self {
            EnvironmentVariable::ServerPort => "SERVER_PORT",
            EnvironmentVariable::DbConnectionUrl => "DB_CONNECTION_URL",
        }
    }
}

/// The two variables have different names.
pub proof fn lemma_variable_names_distinct(a: EnvironmentVariable, b: EnvironmentVariable)
    requires
        a != b,
    ensures
        a.name() != b.name(),
{
    reveal_strlit("SERVER_PORT");
    reveal_strlit("DB_CONNECTION_URL");
    assert("SERVER_PORT"@.len() != "DB_CONNECTION_URL"@.len());
}

/// The configuration of the subway server.
#[derive(Clone, Debug)]
pub struct Config {
    pub server_port: u16,
    pub db_connection_url: String,
}

impl Config {
    /// Reads the configuration from a snapshot of the environment in which
    /// `DB_CONNECTION_URL` is set (see `missing_variable`): the port from
    /// `SERVER_PORT` (3000 where it is missing or not a valid port) and the
    /// database address from `DB_CONNECTION_URL`.
    pub fn new(vars: &Vec<(String, String)>) -> (config: Config)
        requires
            env_value(vars@, EnvironmentVariable::DbConnectionUrl.name()) is Some,
        ensures
            config.server_port == port_or_default(
                env_value(vars@, EnvironmentVariable::ServerPort.name()),
            ),
            env_value(vars@, EnvironmentVariable::DbConnectionUrl.name()) == Some(
                config.db_connection_url@,
            ),
    {
        let server_port = port_setting(vars, EnvironmentVariable::ServerPort.as_str());
        let db_connection_url = lookup(vars, EnvironmentVariable::DbConnectionUrl.as_str()).unwrap();
        Config { server_port, db_connection_url }
    }
}

/// The required variable that the environment lacks, if any: the
/// configuration can be read where there is none.
pub fn missing_variable(vars: &Vec<(String, String)>) -> (r: Option<EnvironmentVariable>)
    ensures
        r is None <==> env_value(vars@, EnvironmentVariable::DbConnectionUrl.name()) is Some,
        r is Some ==> r == Some(EnvironmentVariable::DbConnectionUrl),
{
    if lookup(vars, EnvironmentVariable::DbConnectionUrl.as_str()).is_none() {
        Some(EnvironmentVariable::DbConnectionUrl)
    } else {
        None
    }
}

} // verus!
