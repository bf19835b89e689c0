//! Settings of the API server and of the gateway, read from the
//! environment.
use vstd::prelude::*;
use crate::env::{env_value, lookup, port_or_default, port_setting};

verus! {

/// The environment variables that the settings are read from.
#[derive(Clone, Copy, Debug, PartialEq, Eq, Structural)]
pub enum EnvironmentVariable {
    DatabaseUrl,
    ApiPort,
    ApiSecret,
    ApiHost,
    GatewayPort,
    GatewayHost,
    GatewayCertPath,
}

impl EnvironmentVariable {
    /// The name of the variable in the environment.
    pub open spec fn name(self) -> Seq<char> {
        match self {
            EnvironmentVariable::ApiPort => "API_PORT"@,
            EnvironmentVariable::ApiSecret => "API_SECRET"@,
            EnvironmentVariable::ApiHost => "API_HOST"@,
            EnvironmentVariable::GatewayHost => "GATEWAY_HOST"@,
            EnvironmentVariable::DatabaseUrl => "DATABASE_URL"@,
            EnvironmentVariable::GatewayPort => "GATEWAY_PORT"@,
            EnvironmentVariable::GatewayCertPath => "GATEWAY_CERT_PATH"@,
        }
    }

    /// The name of the variable in the environment.
    pub fn as_str(&self) -> (s: &'static str)
        ensures
            s@ == self.name(),
    {
        match self {
            EnvironmentVariable::ApiPort => "API_PORT",
            EnvironmentVariable::ApiSecret => "API_SECRET",
            EnvironmentVariable::ApiHost => "API_HOST",
            EnvironmentVariable::GatewayHost => "GATEWAY_HOST",
            EnvironmentVariable::DatabaseUrl => "DATABASE_URL",
            EnvironmentVariable::GatewayPort => "GATEWAY_PORT",
            EnvironmentVariable::GatewayCertPath => "GATEWAY_CERT_PATH",
        }
    }
}

/// No two variables share a name.
pub proof fn lemma_variable_names_distinct(a: EnvironmentVariable, b: EnvironmentVariable)
    requires
        a != b,
    ensures
        a.name() != b.name(),
{
    reveal_strlit("API_PORT");
    reveal_strlit("API_SECRET");
    reveal_strlit("API_HOST");
    reveal_strlit("GATEWAY_HOST");
    reveal_strlit("DATABASE_URL");
    reveal_strlit("GATEWAY_PORT");
    reveal_strlit("GATEWAY_CERT_PATH");
    if a.name() == b.name() {
        assert(a.name().len() == b.name().len());
        assert(a.name()[4] == b.name()[4]);
        if a.name().len() > 8 {
            assert(a.name()[8] == b.name()[8]);
        }
    }
}

/// The value of a variable in a snapshot of the environment.
pub open spec fn value_of(vars: Seq<(String, String)>, v: EnvironmentVariable) -> Option<Seq<char>> {
    env_value(vars, v.name())
}

/// The first required variable, in the order in which they are read, that
/// the environment lacks.
pub open spec fn first_missing(vars: Seq<(String, String)>) -> Option<EnvironmentVariable> {
    if value_of(vars, EnvironmentVariable::ApiHost) is None {
        Some(EnvironmentVariable::ApiHost)
    } else if value_of(vars, EnvironmentVariable::ApiSecret) is None {
        Some(EnvironmentVariable::ApiSecret)
    } else if value_of(vars, EnvironmentVariable::GatewayHost) is None {
        Some(EnvironmentVariable::GatewayHost)
    } else if value_of(vars, EnvironmentVariable::DatabaseUrl) is None {
        Some(EnvironmentVariable::DatabaseUrl)
    } else {
        None
    }
}

/// The settings of the API server and of the gateway.
#[derive(Clone, Debug)]
pub struct Settings {
    pub api_port: u16,
    pub api_secret: String,
    pub api_host: String,
    pub gateway_port: u16,
    pub gateway_host: String,
    pub gateway_cert_path: Option<String>,
    pub database_url: String,
}

impl Settings {
    /// `self` holds what the environment `vars` says: the required variables
    /// as they are, the ports read as `u16` with 3000 in place of a missing
    /// or invalid one, and the certificate path where it is set.
    pub open spec fn read_from(self, vars: Seq<(String, String)>) -> bool {
        &&& Some(self.api_host@) == value_of(vars, EnvironmentVariable::ApiHost)
        &&& self.api_port == port_or_default(value_of(vars, EnvironmentVariable::ApiPort))
        &&& Some(self.api_secret@) == value_of(vars, EnvironmentVariable::ApiSecret)
        &&& self.gateway_port == port_or_default(
            value_of(vars, EnvironmentVariable::GatewayPort),
        )
        &&& Some(self.gateway_host@) == value_of(vars, EnvironmentVariable::GatewayHost)
        &&& match self.gateway_cert_path {
            Some(p) => value_of(vars, EnvironmentVariable::GatewayCertPath) == Some(p@),
            None => value_of(vars, EnvironmentVariable::GatewayCertPath) is None,
        }
        &&& Some(self.database_url@) == value_of(vars, EnvironmentVariable::DatabaseUrl)
    }

    /// Reads the settings from a snapshot of the environment in which every
    /// required variable is set (see `first_missing_variable`).
    pub fn new(vars: &Vec<(String, String)>) -> (settings: Settings)
        requires
            first_missing(vars@) is None,
        ensures
            settings.read_from(vars@),
    {
        let api_host = lookup(vars, EnvironmentVariable::ApiHost.as_str()).unwrap();
        let api_port = port_setting(vars, EnvironmentVariable::ApiPort.as_str());
        let api_secret = lookup(vars, EnvironmentVariable::ApiSecret.as_str()).unwrap();
        let gateway_port = port_setting(vars, EnvironmentVariable::GatewayPort.as_str());
        let gateway_host = lookup(vars, EnvironmentVariable::GatewayHost.as_str()).unwrap();
        let gateway_cert_path = lookup(vars, EnvironmentVariable::GatewayCertPath.as_str());
        let database_url = lookup(vars, EnvironmentVariable::DatabaseUrl.as_str()).unwrap();
        Settings {
            api_port,
            api_secret,
            api_host,
            gateway_port,
            gateway_host,
            gateway_cert_path,
            database_url,
        }
    }
}

/// The first required variable, in the order in which the settings read
/// them, that the environment lacks; the settings can be read where there
/// is none.
pub fn first_missing_variable(vars: &Vec<(String, String)>) -> (r: Option<EnvironmentVariable>)
    ensures
        r == first_missing(vars@),
{
    if lookup(vars, EnvironmentVariable::ApiHost.as_str()).is_none() {
        Some(EnvironmentVariable::ApiHost)
    } else if lookup(vars, EnvironmentVariable::ApiSecret.as_str()).is_none() {
        Some(EnvironmentVariable::ApiSecret)
    } else if lookup(vars, EnvironmentVariable::GatewayHost.as_str()).is_none() {
        Some(EnvironmentVariable::GatewayHost)
    } else if lookup(vars, EnvironmentVariable::DatabaseUrl.as_str()).is_none() {
        Some(EnvironmentVariable::DatabaseUrl)
    } else {
        None
    }
}

} // verus!
