//! Tunnel and application settings, with their defaults.

use vstd::prelude::*;

verus! {

/// One tunnel: a local port forwarded through an SSH proxy to a target.
#[derive(Clone, Debug)]
pub struct TunnelConfig {
    pub id: String,
    pub name: String,
    pub local_port: u16,
    pub proxy_host: String,
    pub proxy_port: u16,
    pub proxy_username: String,
    pub save_proxy_password: bool,
    /// Path of a private key for the proxy; empty for password login.
    pub rsa_key_path: String,
    /// Target host, as the proxy server resolves it.
    pub target_host: String,
    pub target_port: u16,
    pub auto_connect: bool,
}

/// A tunnel's settings as values: its strings as character sequences.
pub struct TunnelConfigModel {
    pub id: Seq<char>,
    pub name: Seq<char>,
    pub local_port: u16,
    pub proxy_host: Seq<char>,
    pub proxy_port: u16,
    pub proxy_username: Seq<char>,
    pub save_proxy_password: bool,
    pub rsa_key_path: Seq<char>,
    pub target_host: Seq<char>,
    pub target_port: u16,
    pub auto_connect: bool,
}

impl View for TunnelConfig {
    type V = TunnelConfigModel;

    open spec fn view(&self) -> TunnelConfigModel {
        TunnelConfigModel {
            id: self.id@,
            name: self.name@,
            local_port: self.local_port,
            proxy_host: self.proxy_host@,
            proxy_port: self.proxy_port,
            proxy_username: self.proxy_username@,
            save_proxy_password: self.save_proxy_password,
            rsa_key_path: self.rsa_key_path@,
            target_host: self.target_host@,
            target_port: self.target_port,
            auto_connect: self.auto_connect,
        }
    }
}

/// The settings of a new tunnel whose id is `id`.
pub open spec fn default_tunnel(id: Seq<char>) -> TunnelConfigModel {
    TunnelConfigModel {
        id: id,
        name: "New Tunnel"@,
        local_port: 8080,
        proxy_host: ""@,
        proxy_port: 22,
        proxy_username: ""@,
        save_proxy_password: true,
        rsa_key_path: ""@,
        target_host: "127.0.0.1"@,
        target_port: 80,
        auto_connect: false,
    }
}

/// A lowercase hexadecimal digit.
pub open spec fn is_lower_hex_digit(c: char) -> bool {
    ('0' <= c && c <= '9') || ('a' <= c && c <= 'f')
}

/// The hyphenated lowercase text of a random (version 4) UUID, such as
/// `67e55044-10b1-426f-9247-bb680e5fe0c8`.
pub open spec fn is_uuid_v4_text(s: Seq<char>) -> bool {
    &&& s.len() == 36
    &&& forall|i: int|
        0 <= i < 36 ==> if i == 8 || i == 13 || i == 18 || i == 23 {
            s[i] == '-'
        } else {
            is_lower_hex_digit(#[trigger] s[i])
        }
    &&& s[14] == '4'
    &&& (s[19] == '8' || s[19] == '9' || s[19] == 'a' || s[19] == 'b')
}

/// A fresh random id: `uuid::Uuid::new_v4()` written with `to_string`.
/// The contract claims only the shape of the text, which `Uuid`'s
/// `Display` (lowercase, hyphenated) and `new_v4` (version and variant
/// bits set) give every value; which value comes is left open.
#[verifier::external_body]
pub(crate) fn new_uuid_v4_text() -> (s: String)
    ensures
        is_uuid_v4_text(s@),
{
    uuid::Uuid::new_v4().to_string()
}

impl TunnelConfig {
    /// The settings of a new tunnel with the given id.
    pub fn with_id(id: String) -> (c: TunnelConfig)
        ensures
            c@ == default_tunnel(id@),
            c.id@ == id@,
            c.name@ == "New Tunnel"@,
            c.local_port == 8080,
            c.proxy_host@ == ""@,
            c.proxy_port == 22,
            c.proxy_username@ == ""@,
            c.save_proxy_password,
            c.rsa_key_path@ == ""@,
            c.target_host@ == "127.0.0.1"@,
            c.target_port == 80,
            !c.auto_connect,
    {
        TunnelConfig {
            id: id,
            name: String::from_str("New Tunnel"),
            local_port: 8080,
            proxy_host: String::from_str(""),
            proxy_port: 22,
            proxy_username: String::from_str(""),
            save_proxy_password: true,
            rsa_key_path: String::from_str(""),
            target_host: String::from_str("127.0.0.1"),
            target_port: 80,
            auto_connect: false,
        }
    }

    /// A copy whose view is the same as this one's.
    pub fn duplicate(&self) -> (c: TunnelConfig)
        ensures
            c@ == self@,
    {
        TunnelConfig {
            id: self.id.clone(),
            name: self.name.clone(),
            local_port: self.local_port,
            proxy_host: self.proxy_host.clone(),
            proxy_port: self.proxy_port,
            proxy_username: self.proxy_username.clone(),
            save_proxy_password: self.save_proxy_password,
            rsa_key_path: self.rsa_key_path.clone(),
            target_host: self.target_host.clone(),
            target_port: self.target_port,
            auto_connect: self.auto_connect,
        }
    }
}

impl Default for TunnelConfig {
    /// A new tunnel under a fresh random UUID.
    fn default() -> (c: TunnelConfig)
        ensures
            is_uuid_v4_text(c.id@),
            c@ == default_tunnel(c.id@),
    {
        TunnelConfig::with_id(new_uuid_v4_text())
    }
}

/// Application-wide settings.
#[derive(Clone, Copy, Debug, PartialEq, Eq, Structural)]
pub struct AppConfig {
    /// Seconds to wait for the SSH connection.
    pub connection_timeout: u64,
    pub minimize_to_tray: bool,
    pub start_on_boot: bool,
}

impl Default for AppConfig {
    fn default() -> (c: AppConfig)
        ensures
            c == (AppConfig { connection_timeout: 10, minimize_to_tray: true, start_on_boot: false }),
    {
        AppConfig { connection_timeout: 10, minimize_to_tray: true, start_on_boot: false }
    }
}

} // verus!
