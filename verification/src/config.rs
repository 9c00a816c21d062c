use vstd::prelude::*;

verus! {

use crate::proxy::ProxyConfig;

/// Command-line arguments: where the configuration document lives.
pub struct Args {
    pub config: String,
}

impl Args {
    pub fn new(config: String) -> (r: Self)
        ensures
            r.config@ == config@,
    {
        Args { config }
    }

    pub fn get_config_path(&self) -> (r: &str)
        ensures
            r@ == self.config@,
    {
        self.config.as_str()
    }
}

/// Client settings: which server to dial, the password to authenticate
/// with, and the local services to expose.
pub struct ClientConfig {
    pub proxies: Vec<ProxyConfig>,
    pub server_host: String,
    pub server_port: i32,
    pub password: String,
}

impl ClientConfig {
    pub fn new(server_host: String, server_port: i32, password: String) -> (r: Self)
        ensures
            r.proxies@.len() == 0,
            r.server_host@ == server_host@,
            r.server_port == server_port,
            r.password@ == password@,
    {
        ClientConfig { proxies: Vec::new(), server_host, server_port, password }
    }

    pub fn add_proxy(&mut self, proxy: ProxyConfig)
        ensures
            final(self).proxies@ == old(self).proxies@.push(proxy),
            final(self).server_host == old(self).server_host,
            final(self).server_port == old(self).server_port,
            final(self).password == old(self).password,
    {
        self.proxies.push(proxy);
    }

    pub fn get_proxy(&self) -> (r: &Vec<ProxyConfig>)
        ensures
            r@ == self.proxies@,
    {
        &self.proxies
    }

    pub fn get_server_host(&self) -> (r: &str)
        ensures
            r@ == self.server_host@,
    {
        self.server_host.as_str()
    }

    pub fn get_server_port(&self) -> (r: i32)
        ensures
            r == self.server_port,
    {
        self.server_port
    }

    pub fn get_password(&self) -> (r: &str)
        ensures
            r@ == self.password@,
    {
        self.password.as_str()
    }
}

/// Where the log sinks write.
pub struct LogConfig {
    pub error_path: String,
    pub path: String,
}

impl LogConfig {
    pub fn new(error_path: String, path: String) -> (r: Self)
        ensures
            r.error_path@ == error_path@,
            r.path@ == path@,
    {
        Self { error_path, path }
    }

    pub fn get_error_path(&self) -> (r: &str)
        ensures
            r@ == self.error_path@,
    {
        self.error_path.as_str()
    }

    pub fn get_path(&self) -> (r: &str)
        ensures
            r@ == self.path@,
    {
        self.path.as_str()
    }
}

/// Path the error log falls back to.
pub fn default_error_path() -> (r: String)
    ensures
        r@ == "error.log"@,
{
    let r: String = "error.log".to_owned();
    r
}

/// Path the application log falls back to.
pub fn default_path() -> (r: String)
    ensures
        r@ == "client.log"@,
{
    let r: String = "client.log".to_owned();
    r
}

/// The log settings used when the configuration document names none.
pub fn default_log_config() -> (r: LogConfig)
    ensures
        r.error_path@ == "error.log"@,
        r.path@ == "client.log"@,
{
    LogConfig::new(default_error_path(), default_path())
}

/// Everything the configuration document supplies.
pub struct ConfigWrapper {
    pub client: ClientConfig,
    pub log: LogConfig,
}

impl ConfigWrapper {
    pub fn new(client: ClientConfig, log: LogConfig) -> (r: Self)
        ensures
            r.client == client,
            r.log == log,
    {
        ConfigWrapper { client, log }
    }

    pub fn get_client_config(&self) -> (r: &ClientConfig)
        ensures
            *r == self.client,
    {
        &self.client
    }

    pub fn get_log_config(&self) -> (r: &LogConfig)
        ensures
            *r == self.log,
    {
        &self.log
    }
}

} // verus!
