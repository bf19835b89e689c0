//! Settings of the API server and of the reverse proxy, read from the
//! environment.
use vstd::prelude::*;
use crate::env::{env_value, lookup, port_or_default, port_setting};

verus! {

/// The environment variables that the settings are read from.
#[derive(Clone, Copy, Debug, PartialEq, Eq, Structural)]
pub enum EnvironmentVariable {
    DatabaseUrl,
    ApiPort,
    ApiSecret,
    ApiHost,
    ReverseProxyPort,
    ReverseProxyHost,
    ReverseProxyCertPath,
}

impl EnvironmentVariable {
    /// The name of the variable in the environment.
    pub open spec fn name(self) -> Seq<char> {
        match self {
            EnvironmentVariable::ApiPort => "API_PORT"@,
            EnvironmentVariable::ApiSecret => "API_SECRET"@,
            EnvironmentVariable::ApiHost => "API_HOST"@,
            EnvironmentVariable::ReverseProxyHost => "REVERSE_PROXY_HOST"@,
            EnvironmentVariable::DatabaseUrl => "DATABASE_URL"@,
            EnvironmentVariable::ReverseProxyPort => "REVERSE_PROXY_PORT"@,
            EnvironmentVariable::ReverseProxyCertPath => "REVERSE_PROXY_CERT_PATH"@,
        }
    }

    /// The name of the variable in the environment.
    pub fn as_str(&self) -> (s: &'static str)
        ensures
            s@ == self.name(),
    {
        match self {
            EnvironmentVariable::ApiPort => "API_PORT",
            EnvironmentVariable::ApiSecret => "API_SECRET",
            EnvironmentVariable::ApiHost => "API_HOST",
            EnvironmentVariable::ReverseProxyHost => "REVERSE_PROXY_HOST",
            EnvironmentVariable::DatabaseUrl => "DATABASE_URL",
            EnvironmentVariable::ReverseProxyPort => "REVERSE_PROXY_PORT",
            EnvironmentVariable::ReverseProxyCertPath => "REVERSE_PROXY_CERT_PATH",
        }
    }
}

/// No two variables share a name.
pub proof fn lemma_variable_names_distinct(a: EnvironmentVariable, b: EnvironmentVariable)
    requires
        a != b,
    ensures
        a.name() != b.name(),
{
    reveal_strlit("API_PORT");
    reveal_strlit("API_SECRET");
    reveal_strlit("API_HOST");
    reveal_strlit("REVERSE_PROXY_HOST");
    reveal_strlit("DATABASE_URL");
    reveal_strlit("REVERSE_PROXY_PORT");
    reveal_strlit("REVERSE_PROXY_CERT_PATH");
    if a.name() == b.name() {
        assert(a.name().len() == b.name().len());
        assert(a.name()[4] == b.name()[4]);
        if a.name().len() > 14 {
            assert(a.name()[14] == b.name()[14]);
        }
    }
}

/// The value of a variable in a snapshot of the environment.
pub open spec fn value_of(vars: Seq<(String, String)>, v: EnvironmentVariable) -> Option<Seq<char>> {
    env_value(vars, v.name())
}

/// The first required variable, in the order in which they are read, that
/// the environment lacks.
pub open spec fn first_missing(vars: Seq<(String, String)>) -> Option<EnvironmentVariable> {
    if value_of(vars, EnvironmentVariable::ApiHost) is None {
        Some(EnvironmentVariable::ApiHost)
    } else if value_of(vars, EnvironmentVariable::ApiSecret) is None {
        Some(EnvironmentVariable::ApiSecret)
    } else if value_of(vars, EnvironmentVariable::ReverseProxyHost) is None {
        Some(EnvironmentVariable::ReverseProxyHost)
    } else if value_of(vars, EnvironmentVariable::DatabaseUrl) is None {
        Some(EnvironmentVariable::DatabaseUrl)
    } else {
        None
    }
}

/// The settings of the API server and of the reverse proxy.
#[derive(Clone, Debug)]
pub struct Settings {
    pub api_port: u16,
    pub api_secret: String,
    pub api_host: String,
    pub reverse_proxy_port: u16,
    pub reverse_proxy_host: String,
    pub reverse_proxy_cert_path: Option<String>,
    pub database_url: String,
}

impl Settings {
    /// `self` holds what the environment `vars` says: the required variables
    /// as they are, the ports read as `u16` with 3000 in place of a missing
    /// or invalid one, and the certificate path where it is set.
    pub open spec fn read_from(self, vars: Seq<(String, String)>) -> bool {
        &&& Some(self.api_host@) == value_of(vars, EnvironmentVariable::ApiHost)
        &&& self.api_port == port_or_default(value_of(vars, EnvironmentVariable::ApiPort))
        &&& Some(self.api_secret@) == value_of(vars, EnvironmentVariable::ApiSecret)
        &&& self.reverse_proxy_port == port_or_default(
            value_of(vars, EnvironmentVariable::ReverseProxyPort),
        )
        &&& Some(self.reverse_proxy_host@) == value_of(vars, EnvironmentVariable::ReverseProxyHost)
        &&& match self.reverse_proxy_cert_path {
            Some(p) => value_of(vars, EnvironmentVariable::ReverseProxyCertPath) == Some(p@),
            None => value_of(vars, EnvironmentVariable::ReverseProxyCertPath) is None,
        }
        &&& Some(self.database_url@) == value_of(vars, EnvironmentVariable::DatabaseUrl)
    }

    /// Reads the settings from a snapshot of the environment in which every
    /// required variable is set (see `first_missing_variable`).
    pub fn new(vars: &Vec<(String, String)>) -> (settings: Settings)
        requires
            first_missing(vars@) is None,
        ensures
            settings.read_from(vars@),
    {
        let api_host = lookup(vars, EnvironmentVariable::ApiHost.as_str()).unwrap();
        let api_port = port_setting(vars, EnvironmentVariable::ApiPort.as_str());
        let api_secret = lookup(vars, EnvironmentVariable::ApiSecret.as_str()).unwrap();
        let reverse_proxy_port = port_setting(vars, EnvironmentVariable::ReverseProxyPort.as_str());
        let reverse_proxy_host = lookup(vars, EnvironmentVariable::ReverseProxyHost.as_str()).unwrap();
        let reverse_proxy_cert_path = lookup(vars, EnvironmentVariable::ReverseProxyCertPath.as_str());
        let database_url = lookup(vars, EnvironmentVariable::DatabaseUrl.as_str()).unwrap();
        Settings {
            api_port,
            api_secret,
            api_host,
            reverse_proxy_port,
            reverse_proxy_host,
            reverse_proxy_cert_path,
            database_url,
        }
    }
}

/// The first required variable, in the order in which the settings read
/// them, that the environment lacks; the settings can be read where there
/// is none.
pub fn first_missing_variable(vars: &Vec<(String, String)>) -> (r: Option<EnvironmentVariable>)
    ensures
        r == first_missing(vars@),
{
    if lookup(vars, EnvironmentVariable::ApiHost.as_str()).is_none() {
        Some(EnvironmentVariable::ApiHost)
    } else if lookup(vars, EnvironmentVariable::ApiSecret.as_str()).is_none() {
        Some(EnvironmentVariable::ApiSecret)
    } else if lookup(vars, EnvironmentVariable::ReverseProxyHost.as_str()).is_none() {
        Some(EnvironmentVariable::ReverseProxyHost)
    } else if lookup(vars, EnvironmentVariable::DatabaseUrl.as_str()).is_none() {
        Some(EnvironmentVariable::DatabaseUrl)
    } else {
        None
    }
}

} // verus!
