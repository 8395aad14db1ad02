//! The decisions of one tunnel session, from connecting to the proxy to
//! closing it: each event that the session's driver observes gives the next
//! stage and the action the driver performs next.

use vstd::prelude::*;
use crate::config::{TunnelConfig, TunnelConfigModel};
use crate::text::{decimal, push_decimal};
use crate::tunnel::{TunnelError, TunnelErrorModel};

verus! {

/// How the session logs in to the proxy.
#[derive(Debug)]
pub enum AuthMethod {
    /// With the private key at `key_path`, unlocked by `passphrase` where
    /// one is given.
    PublicKey { key_path: String, passphrase: Option<String> },
    /// With the password.
    Password { password: String },
}

/// The login for a tunnel: its key file where it names one (the proxy
/// password, when not empty, being the key's passphrase), else the proxy
/// password.
pub fn choose_auth(rsa_key_path: &String, proxy_pass: &String) -> (m: AuthMethod)
    ensures
        rsa_key_path@.len() > 0 ==> (m matches AuthMethod::PublicKey { key_path, passphrase }
            && key_path@ == rsa_key_path@ && (if proxy_pass@.len() == 0 {
            passphrase is None
        } else {
            passphrase matches Some(p) && p@ == proxy_pass@
        })),
        rsa_key_path@.len() == 0 ==> (m matches AuthMethod::Password { password } && password@
            == proxy_pass@),
{
    if !rsa_key_path.as_str().is_empty() {
        let passphrase = if proxy_pass.as_str().is_empty() {
            None
        } else {
            Some(proxy_pass.clone())
        };
        AuthMethod::PublicKey { key_path: rsa_key_path.clone(), passphrase }
    } else {
        AuthMethod::Password { password: proxy_pass.clone() }
    }
}

/// The address the tunnel listens on: `127.0.0.1:<port>`.
pub open spec fn listen_address(port: u16) -> Seq<char> {
    "127.0.0.1:"@ + decimal(port as nat)
}

/// Where a session stands.
#[derive(Clone, Copy, Debug, PartialEq, Eq, Structural)]
pub enum SessionStage {
    /// Connecting to the proxy (with a time limit).
    Connecting,
    /// Logging in to the proxy.
    Authenticating,
    /// Opening the local listening port.
    Binding,
    /// Accepting local clients and forwarding them.
    Serving,
    /// Asked to stop: disconnecting from the proxy.
    Closing,
    /// Done; the outcome has been handed out.
    Finished,
}

/// What the session's driver observed.
#[derive(Debug)]
pub enum SessionEvent {
    /// The connection did not finish within the time limit.
    ConnectTimedOut,
    /// The connection failed with this message.
    ConnectFailed(String),
    /// The connection is up; the host-key check may have left an error.
    Connected { host_key_error: Option<TunnelError> },
    /// Logging in failed with this message (a key that would not load, or
    /// an SSH error).
    AuthFailed(String),
    /// The proxy answered the login: accepted or not.
    Authenticated(bool),
    /// The local port could not be opened.
    BindFailed(String),
    /// The local port is open.
    Bound,
    /// The periodic check (every 100 ms): whether the tunnel should still
    /// run.
    Tick { running: bool },
    /// A local client connected.
    ClientAccepted,
    /// The disconnect from the proxy is done (whatever its outcome).
    Disconnected,
}

/// What the driver does next.
#[derive(Debug)]
pub enum SessionAction {
    /// Connect to the proxy, waiting at most `timeout_secs` seconds.
    Connect { host: String, port: u16, timeout_secs: u64 },
    /// Log in as `username`.
    Authenticate { username: String, method: AuthMethod },
    /// Open the local listening port at `address`.
    Bind { address: String },
    /// Forward the new client through a direct TCP/IP channel to the
    /// target, declaring `originator`:`originator_port` as its source.
    OpenChannel { target_host: String, target_port: u32, originator: String, originator_port: u32 },
    /// Disconnect from the proxy, by the application's own choice.
    Disconnect { description: String, language: String },
    /// Nothing to do until the next event.
    Wait,
    /// The session is over with this outcome.
    Finish(Result<(), TunnelError>),
}

/// The stage that follows `stage` on `event`; an event that does not fit
/// the stage leaves it as it is.
pub open spec fn next_stage(stage: SessionStage, event: SessionEvent) -> SessionStage {
    match (stage, event) {
        (SessionStage::Connecting, SessionEvent::ConnectTimedOut) => SessionStage::Finished,
        (SessionStage::Connecting, SessionEvent::ConnectFailed(_)) => SessionStage::Finished,
        (SessionStage::Connecting, SessionEvent::Connected { host_key_error }) => {
            if host_key_error is Some {
                SessionStage::Finished
            } else {
                SessionStage::Authenticating
            }
        },
        (SessionStage::Authenticating, SessionEvent::AuthFailed(_)) => SessionStage::Finished,
        (SessionStage::Authenticating, SessionEvent::Authenticated(ok)) => {
            if ok {
                SessionStage::Binding
            } else {
                SessionStage::Finished
            }
        },
        (SessionStage::Binding, SessionEvent::BindFailed(_)) => SessionStage::Finished,
        (SessionStage::Binding, SessionEvent::Bound) => SessionStage::Serving,
        (SessionStage::Serving, SessionEvent::Tick { running }) => {
            if running {
                SessionStage::Serving
            } else {
                SessionStage::Closing
            }
        },
        (SessionStage::Closing, SessionEvent::Disconnected) => SessionStage::Finished,
        _ => stage,
    }
}

/// The order of the stages.
pub open spec fn stage_rank(stage: SessionStage) -> nat {
    match stage {
        SessionStage::Connecting => 0,
        SessionStage::Authenticating => 1,
        SessionStage::Binding => 2,
        SessionStage::Serving => 3,
        SessionStage::Closing => 4,
        SessionStage::Finished => 5,
    }
}

/// One tunnel session: the tunnel's settings, the proxy password, the
/// connection time limit, and the stage reached.
pub struct TunnelSession {
    config: TunnelConfig,
    password: String,
    timeout_secs: u64,
    stage: SessionStage,
}

impl TunnelSession {
    /// The stage reached.
    pub closed spec fn stage(&self) -> SessionStage {
        self.stage
    }

    /// The settings of the tunnel.
    pub closed spec fn config(&self) -> TunnelConfigModel {
        self.config@
    }

    /// The proxy password the session logs in with.
    pub closed spec fn password(&self) -> Seq<char> {
        self.password@
    }

    /// The time limit for connecting, in seconds.
    pub closed spec fn timeout_secs(&self) -> u64 {
        self.timeout_secs
    }

    /// Starts a session: its first action connects to the proxy.
    pub fn start(config: TunnelConfig, password: String, timeout_secs: u64) -> (r: (
        TunnelSession,
        SessionAction,
    ))
        ensures
            r.0.stage() == SessionStage::Connecting,
            r.0.config() == config@,
            r.0.password() == password@,
            r.0.timeout_secs() == timeout_secs,
            r.1 matches SessionAction::Connect { host, port, timeout_secs: t } && host@
                == config@.proxy_host && port == config@.proxy_port && t == timeout_secs,
    {
        let action = SessionAction::Connect {
            host: config.proxy_host.clone(),
            port: config.proxy_port,
            timeout_secs,
        };
        (TunnelSession { config, password, timeout_secs, stage: SessionStage::Connecting }, action)
    }

    /// The stage reached.
    pub fn current_stage(&self) -> (s: SessionStage)
        ensures
            s == self.stage(),
    {
        self.stage
    }

    /// Takes one event and gives the action that follows it.
    pub fn step(&mut self, event: SessionEvent) -> (action: SessionAction)
        ensures
            final(self).stage() == next_stage(old(self).stage(), event),
            final(self).stage() == match (old(self).stage(), event) {
                (SessionStage::Connecting, SessionEvent::Connected { host_key_error: None }) => SessionStage::Authenticating,
                (SessionStage::Connecting, SessionEvent::Connected { host_key_error: Some(_) }) => SessionStage::Finished,
                (SessionStage::Connecting, SessionEvent::ConnectTimedOut) => SessionStage::Finished,
                (SessionStage::Connecting, SessionEvent::ConnectFailed(_)) => SessionStage::Finished,
                (SessionStage::Authenticating, SessionEvent::Authenticated(true)) => SessionStage::Binding,
                (SessionStage::Authenticating, SessionEvent::Authenticated(false)) => SessionStage::Finished,
                (SessionStage::Authenticating, SessionEvent::AuthFailed(_)) => SessionStage::Finished,
                (SessionStage::Binding, SessionEvent::Bound) => SessionStage::Serving,
                (SessionStage::Binding, SessionEvent::BindFailed(_)) => SessionStage::Finished,
                (SessionStage::Serving, SessionEvent::Tick { running: false }) => SessionStage::Closing,
                (SessionStage::Closing, SessionEvent::Disconnected) => SessionStage::Finished,
                (st, _) => st,
            },
            final(self).config() == old(self).config(),
            final(self).password() == old(self).password(),
            final(self).timeout_secs() == old(self).timeout_secs(),
            match (old(self).stage(), event) {
                (SessionStage::Connecting, SessionEvent::ConnectTimedOut) => action matches SessionAction::Finish(Err(e))
                    && e@ == TunnelErrorModel::Message("Connection timeout"@),
                (SessionStage::Connecting, SessionEvent::ConnectFailed(m)) => action matches SessionAction::Finish(Err(e))
                    && e@ == TunnelErrorModel::Message(m@),
                (SessionStage::Connecting, SessionEvent::Connected { host_key_error }) => match host_key_error {
                    Some(k) => action matches SessionAction::Finish(Err(e)) && e@ == k@,
                    None => action matches SessionAction::Authenticate { username, method }
                        && username@ == old(self).config().proxy_username && (if old(
                        self,
                    ).config().rsa_key_path.len() > 0 {
                        method matches AuthMethod::PublicKey { key_path, passphrase } && key_path@
                            == old(self).config().rsa_key_path && (if old(self).password().len()
                            == 0 {
                            passphrase is None
                        } else {
                            passphrase matches Some(p) && p@ == old(self).password()
                        })
                    } else {
                        method matches AuthMethod::Password { password } && password@ == old(
                            self,
                        ).password()
                    }),
                },
                (SessionStage::Authenticating, SessionEvent::AuthFailed(m)) => action matches SessionAction::Finish(Err(e))
                    && e@ == TunnelErrorModel::Message(m@),
                (SessionStage::Authenticating, SessionEvent::Authenticated(ok)) => if ok {
                    action matches SessionAction::Bind { address } && address@ == listen_address(
                        old(self).config().local_port,
                    ) && address@ == "127.0.0.1:"@ + decimal(old(self).config().local_port as nat)
                } else {
                    action matches SessionAction::Finish(Err(e)) && e@ == TunnelErrorModel::Message(
                        "Authentication failed"@,
                    )
                },
                (SessionStage::Binding, SessionEvent::BindFailed(m)) => action matches SessionAction::Finish(Err(e))
                    && e@ == TunnelErrorModel::Message(m@),
                (SessionStage::Binding, SessionEvent::Bound) => action is Wait,
                (SessionStage::Serving, SessionEvent::Tick { running }) => if running {
                    action is Wait
                } else {
                    action matches SessionAction::Disconnect { description, language }
                        && description@ == "rTunnel session closed"@ && language@ == "en-US"@
                },
                (SessionStage::Serving, SessionEvent::ClientAccepted) => action matches SessionAction::OpenChannel {
                    target_host,
                    target_port,
                    originator,
                    originator_port,
                } && target_host@ == old(self).config().target_host && target_port == old(
                    self,
                ).config().target_port as u32 && originator@ == "localhost"@ && originator_port
                    == 0,
                (SessionStage::Closing, SessionEvent::Disconnected) => action matches SessionAction::Finish(Ok(())),
                _ => action is Wait,
            },
    {
        let stage = self.stage;
        match (stage, event) {
            (SessionStage::Connecting, SessionEvent::ConnectTimedOut) => {
                self.stage = SessionStage::Finished;
                SessionAction::Finish(
                    Err(TunnelError::Message(String::from_str("Connection timeout"))),
                )
            },
            (SessionStage::Connecting, SessionEvent::ConnectFailed(m)) => {
                self.stage = SessionStage::Finished;
                SessionAction::Finish(Err(TunnelError::Message(m)))
            },
            (SessionStage::Connecting, SessionEvent::Connected { host_key_error }) => {
                match host_key_error {
                    Some(e) => {
                        self.stage = SessionStage::Finished;
                        SessionAction::Finish(Err(e))
                    },
                    None => {
                        self.stage = SessionStage::Authenticating;
                        let method = choose_auth(&self.config.rsa_key_path, &self.password);
                        SessionAction::Authenticate {
                            username: self.config.proxy_username.clone(),
                            method,
                        }
                    },
                }
            },
            (SessionStage::Authenticating, SessionEvent::AuthFailed(m)) => {
                self.stage = SessionStage::Finished;
                SessionAction::Finish(Err(TunnelError::Message(m)))
            },
            (SessionStage::Authenticating, SessionEvent::Authenticated(ok)) => {
                if ok {
                    self.stage = SessionStage::Binding;
                    let mut address = String::from_str("127.0.0.1:");
                    push_decimal(&mut address, self.config.local_port as u64);
                    SessionAction::Bind { address }
                } else {
                    self.stage = SessionStage::Finished;
                    SessionAction::Finish(
                        Err(TunnelError::Message(String::from_str("Authentication failed"))),
                    )
                }
            },
            (SessionStage::Binding, SessionEvent::BindFailed(m)) => {
                self.stage = SessionStage::Finished;
                SessionAction::Finish(Err(TunnelError::Message(m)))
            },
            (SessionStage::Binding, SessionEvent::Bound) => {
                self.stage = SessionStage::Serving;
                SessionAction::Wait
            },
            (SessionStage::Serving, SessionEvent::Tick { running }) => {
                if running {
                    SessionAction::Wait
                } else {
                    self.stage = SessionStage::Closing;
                    SessionAction::Disconnect {
                        description: String::from_str("rTunnel session closed"),
                        language: String::from_str("en-US"),
                    }
                }
            },
            (SessionStage::Serving, SessionEvent::ClientAccepted) => {
                SessionAction::OpenChannel {
                    target_host: self.config.target_host.clone(),
                    target_port: self.config.target_port as u32,
                    originator: String::from_str("localhost"),
                    originator_port: 0,
                }
            },
            (SessionStage::Closing, SessionEvent::Disconnected) => {
                self.stage = SessionStage::Finished;
                SessionAction::Finish(Ok(()))
            },
            _ => SessionAction::Wait,
        }
    }
}

/// A session never goes back to an earlier stage.
pub proof fn lemma_stage_never_goes_back(stage: SessionStage, event: SessionEvent)
    ensures
        stage_rank(stage) <= stage_rank(next_stage(stage, event)),
{
}

/// A finished session stays finished, whatever happens.
pub proof fn lemma_finished_is_final(event: SessionEvent)
    ensures
        next_stage(SessionStage::Finished, event) == SessionStage::Finished,
{
}

/// A session serves local clients only after the proxy accepted its login
/// and the local port opened: the serving stage is entered only from
/// binding, and binding only from an accepted login.
pub proof fn lemma_serving_needs_login(stage: SessionStage, event: SessionEvent)
    ensures
        next_stage(stage, event) == SessionStage::Serving && stage != SessionStage::Serving
            ==> stage == SessionStage::Binding && event is Bound,
        next_stage(stage, event) == SessionStage::Binding && stage != SessionStage::Binding
            ==> stage == SessionStage::Authenticating && event == SessionEvent::Authenticated(true),
{
}

} // verus!
