//! Client configuration: where the server lives and how patiently to call
//! it, the validity rules for those settings, and the rule for merging
//! command-line overrides with a configuration loaded from file.

use vstd::prelude::*;
use crate::error::FileServerError;
use crate::text::{decimal_of, u64_to_string};

verus! {

/// Where the server is reached.
#[derive(Clone, Debug)]
pub struct ServerSettings {
    pub host: String,
    pub port: u16,
}

/// How the client calls the server.
#[derive(Clone, Debug)]
pub struct ClientSettings {
    pub timeout_seconds: u64,
    pub retry_attempts: u32,
}

/// The whole client configuration.
#[derive(Clone, Debug)]
pub struct ClientConfig {
    pub server: ServerSettings,
    pub client: ClientSettings,
}

/// A client configuration is valid: a nonempty host, and no zero among the
/// port, the timeout and the retry budget.
pub open spec fn client_config_valid(c: ClientConfig) -> bool {
    &&& c.server.host@.len() > 0
    &&& c.server.port != 0
    &&& c.client.timeout_seconds != 0
    &&& c.client.retry_attempts != 0
}

/// The configuration `loaded` with command-line overrides applied: the
/// host and port where given, the timeout and retry budget always.
pub open spec fn overridden(
    loaded: ClientConfig,
    server: Option<String>,
    port: Option<u16>,
    timeout: u64,
    retries: u32,
) -> ClientConfig {
    ClientConfig {
        server: ServerSettings {
            host: match server {
                Some(h) => h,
                None => loaded.server.host,
            },
            port: match port {
                Some(p) => p,
                None => loaded.server.port,
            },
        },
        client: ClientSettings { timeout_seconds: timeout, retry_attempts: retries },
    }
}

impl ClientConfig {
    /// Checks the configuration and names the first offending field.
    pub fn validate(&self) -> (r: Result<(), FileServerError>)
        ensures
            r is Ok <==> client_config_valid(*self),
            r is Err ==> r->Err_0 is ConfigError,
            self.server.host@.len() == 0 ==> (r is Err && r->Err_0.detail_spec()
                == "Server host cannot be empty"@),
            self.server.host@.len() > 0 && self.server.port == 0 ==> (r is Err
                && r->Err_0.detail_spec() == "Server port cannot be 0"@),
            self.server.host@.len() > 0 && self.server.port != 0 && self.client.timeout_seconds
                == 0 ==> (r is Err && r->Err_0.detail_spec() == "Timeout cannot be 0"@),
            self.server.host@.len() > 0 && self.server.port != 0 && self.client.timeout_seconds
                != 0 && self.client.retry_attempts == 0 ==> (r is Err && r->Err_0.detail_spec()
                == "Retry attempts cannot be 0"@),
    {
        if self.server.host.as_str().unicode_len() == 0 {
            return Err(
                FileServerError::ConfigError(String::from_str("Server host cannot be empty")),
            );
        }
        if self.server.port == 0 {
            return Err(FileServerError::ConfigError(String::from_str("Server port cannot be 0")));
        }
        if self.client.timeout_seconds == 0 {
            return Err(FileServerError::ConfigError(String::from_str("Timeout cannot be 0")));
        }
        if self.client.retry_attempts == 0 {
            return Err(
                FileServerError::ConfigError(String::from_str("Retry attempts cannot be 0")),
            );
        }
        Ok(())
    }

    /// The server's base address: `http://<host>:<port>`.
    pub fn server_address(&self) -> (r: String)
        ensures
            r@ == "http://"@ + self.server.host@ + ":"@ + decimal_of(self.server.port as nat),
    {
        let mut s = String::from_str("http://");
        s.append(self.server.host.as_str());
        s.append(":");
        s.append(u64_to_string(self.server.port as u64).as_str());
        s
    }
}

/// Builds the configuration the client runs with. When both a server host
/// and a port are given on the command line, they make a configuration by
/// themselves; otherwise a configuration loaded from file is required, and
/// the command-line values override its fields. Either way the result must
/// be valid.
pub fn create_config_from_args(
    server: &Option<String>,
    port: &Option<u16>,
    timeout: u64,
    retries: u32,
    loaded: Option<ClientConfig>,
) -> (r: Result<ClientConfig, FileServerError>)
    ensures
        r is Err ==> r->Err_0 is ConfigError,
        (server is Some && port is Some) ==> {
            let built = (ClientConfig {
                server: ServerSettings { host: server->0, port: port->0 },
                client: ClientSettings { timeout_seconds: timeout, retry_attempts: retries },
            });
            &&& (r is Ok <==> client_config_valid(built))
            &&& (r is Ok ==> r->Ok_0 == built)
        },
        !(server is Some && port is Some) && loaded is Some ==> {
            let built = overridden(loaded->0, *server, *port, timeout, retries);
            &&& (r is Ok <==> client_config_valid(built))
            &&& (r is Ok ==> r->Ok_0 == built)
        },
        !(server is Some && port is Some) && loaded is None ==> (r is Err
            && r->Err_0.detail_spec()
            == "Either provide --server and --port, or specify a config file with --config"@),
{
    if let (Some(host), Some(p)) = (server, port) {
        let config = ClientConfig {
            server: ServerSettings { host: host.clone(), port: *p },
            client: ClientSettings { timeout_seconds: timeout, retry_attempts: retries },
        };
        match config.validate() {
            Ok(_) => {
                return Ok(config);
            },
            Err(e) => {
                return Err(e);
            },
        }
    }
    match loaded {
        Some(loaded_config) => {
            let mut config = loaded_config;
            if let Some(host) = server {
                config.server.host = host.clone();
            }
            if let Some(p) = port {
                config.server.port = *p;
            }
            config.client.timeout_seconds = timeout;
            config.client.retry_attempts = retries;
            match config.validate() {
                Ok(_) => Ok(config),
                Err(e) => Err(e),
            }
        },
        None => Err(
            FileServerError::ConfigError(
                String::from_str(
                    "Either provide --server and --port, or specify a config file with --config",
                ),
            ),
        ),
    }
}

} // verus!
