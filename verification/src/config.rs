use vstd::prelude::*;
use crate::text::{
    all_digits, decimal_digits, digits_value, lemma_decimal_digits, push_char, push_decimal,
};

verus! {

/// Settings of the listening side: where it binds and which TLS identity it
/// presents.
pub struct ServerConfigToml {
    pub port: u16,
    pub host: String,
    pub tls_cert_path: String,
    pub tls_pvt_key_path: String,
}

/// Settings of the sending side: where it binds and which server
/// certificates it trusts.
pub struct ClientConfigToml {
    pub port: u16,
    pub host: String,
    pub tls_allowed_servers_certs_path: String,
}

/// The whole configuration, one section for each side.
pub struct SuperQuinnConfig {
    pub server: ServerConfigToml,
    pub client: ClientConfigToml,
}

/// `host:port`, the port written in decimal.
pub open spec fn host_with_port(host: Seq<char>, port: u16) -> Seq<char> {
    host.push(':') + decimal_digits(port as nat)
}

/// `host:port` is the host, a colon, then the port in decimal: digits only,
/// no leading zero unless the port is 0, and read back they give the port.
pub proof fn lemma_host_with_port(host: Seq<char>, port: u16)
    ensures
        host_with_port(host, port).len() > host.len() + 1,
        host_with_port(host, port).take(host.len() as int) == host,
        host_with_port(host, port)[host.len() as int] == ':',
        all_digits(host_with_port(host, port).skip(host.len() as int + 1)),
        host_with_port(host, port)[host.len() as int + 1] != '0' || port == 0,
        digits_value(host_with_port(host, port).skip(host.len() as int + 1)) == port,
{
    lemma_decimal_digits(port as nat);
    let d = decimal_digits(port as nat);
    let s = host_with_port(host, port);
    assert(s.take(host.len() as int) =~= host);
    assert(s.skip(host.len() as int + 1) =~= d);
    assert(s[host.len() as int + 1] == d[0]);
}

impl SuperQuinnConfig {
    /// Assembles a configuration from its two sections.
    pub fn new(server: ServerConfigToml, client: ClientConfigToml) -> (c: Self)
        ensures
            c.server == server,
            c.client == client,
    {
        SuperQuinnConfig { server, client }
    }

    pub fn server_port(&self) -> (p: u16)
        ensures
            p == self.server.port,
    {
        self.server.port
    }

    pub fn server_addr(&self) -> (a: String)
        ensures
            a@ == self.server.host@,
    {
        self.server.host.clone()
    }

    pub fn server_addr_with_port(&self) -> (a: String)
        ensures
            a@ == host_with_port(self.server.host@, self.server.port),
    {
        let mut s = self.server_addr();
        push_char(&mut s, ':');
        push_decimal(&mut s, self.server_port() as u64);
        s
    }

    pub fn client_port(&self) -> (p: u16)
        ensures
            p == self.client.port,
    {
        self.client.port
    }

    pub fn client_addr(&self) -> (a: String)
        ensures
            a@ == self.client.host@,
    {
        self.client.host.clone()
    }

    pub fn client_addr_with_port(&self) -> (a: String)
        ensures
            a@ == host_with_port(self.client.host@, self.client.port),
    {
        let mut s = self.client_addr();
        push_char(&mut s, ':');
        push_decimal(&mut s, self.client_port() as u64);
        s
    }

    pub fn client_allowed_server_certs_path(&self) -> (p: &String)
        ensures
            p == &self.client.tls_allowed_servers_certs_path,
    {
        &self.client.tls_allowed_servers_certs_path
    }

    pub fn server_rsa_cert_path(&self) -> (p: &String)
        ensures
            p == &self.server.tls_cert_path,
    {
        &self.server.tls_cert_path
    }

    pub fn server_rsa_key_path(&self) -> (p: &String)
        ensures
            p == &self.server.tls_pvt_key_path,
    {
        &self.server.tls_pvt_key_path
    }
}

} // verus!
