//! Where proxy passwords are kept in the system's credential store, and
//! when a stored password is used, asked for or saved.

use vstd::prelude::*;

verus! {

/// The credential-store service under which the proxy password of the
/// tunnel `id` is kept: `rTunnel_<id>_proxy`.
pub open spec fn proxy_service_name(id: Seq<char>) -> Seq<char> {
    "rTunnel_"@ + id + "_proxy"@
}

/// The credential-store service for the proxy password of tunnel `id`.
pub fn get_proxy_service_name(id: &str) -> (s: String)
    ensures
        s@ == proxy_service_name(id@),
        s@ == "rTunnel_"@ + id@ + "_proxy"@,
{
    let mut s = String::from_str("rTunnel_");
    s.append(id);
    s.append("_proxy");
    s
}

/// What starting a tunnel does about its proxy password.
#[derive(Debug)]
pub enum StartStep {
    /// No password is stored: ask the user for one.
    AskPassword,
    /// Connect with the stored password.
    UseStored(String),
}

/// What starting a tunnel does, given what reading its stored password
/// gave: a failed read counts as no password, and so does an empty one.
pub fn plan_start(stored: Result<String, String>) -> (step: StartStep)
    ensures
        match stored {
            Ok(p) => if p@.len() > 0 {
                step matches StartStep::UseStored(q) && q@ == p@
            } else {
                step is AskPassword
            },
            Err(_) => step is AskPassword,
        },
{
    match stored {
        Ok(p) => if p.as_str().is_empty() {
            StartStep::AskPassword
        } else {
            StartStep::UseStored(p)
        },
        Err(_) => StartStep::AskPassword,
    }
}

/// Where the password for a connection comes from once the user has
/// answered (or not been asked).
#[derive(Debug)]
pub enum PasswordChoice {
    /// Nothing was typed: read the stored password (none counts as empty).
    Stored,
    /// Use the typed password, and store it when `remember` is set.
    Typed { password: String, remember: bool },
}

/// The password to connect with: the typed one, remembered when the tunnel
/// saves its proxy password, or the stored one where nothing was typed.
pub fn choose_password(typed: String, save_proxy_password: bool) -> (c: PasswordChoice)
    ensures
        typed@.len() == 0 ==> c is Stored,
        typed@.len() > 0 ==> (c matches PasswordChoice::Typed { password, remember } && password@
            == typed@ && remember == save_proxy_password),
{
    if typed.as_str().is_empty() {
        PasswordChoice::Stored
    } else {
        PasswordChoice::Typed { password: typed, remember: save_proxy_password }
    }
}

/// A stored password as the connection uses it: a failed read gives the
/// empty password.
pub fn stored_or_empty(stored: Result<String, String>) -> (p: String)
    ensures
        match stored {
            Ok(s) => p@ == s@,
            Err(_) => p@.len() == 0,
        },
{
    match stored {
        Ok(s) => s,
        Err(_) => String::new(),
    }
}

} // verus!
