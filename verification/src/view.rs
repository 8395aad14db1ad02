//! What the user interface shows of a tunnel and of the settings, and how
//! an edited form is read back.

use vstd::prelude::*;
use vstd::arithmetic::div_mod::{lemma_div_denominator, lemma_fundamental_div_mod};
use vstd::arithmetic::mul::lemma_mul_inequality;
use crate::config::{AppConfig, TunnelConfig, TunnelConfigModel};
use crate::text::{lemma_parse_decimal_roundtrip, decimal, decimal_string, parse_unsigned, parse_unsigned_decimal, push_char, push_decimal};

verus! {

/// The counters of a running tunnel at one moment.
#[derive(Clone, Copy, Debug, PartialEq, Eq, Structural)]
pub struct TelemetrySnapshot {
    /// Whole seconds since the tunnel started.
    pub elapsed_secs: u64,
    /// Bytes sent from the local client towards the target.
    pub tx_bytes: u64,
    /// Bytes received from the target.
    pub rx_bytes: u64,
}

/// One row of the tunnel list, as the form shows and edits it.
#[derive(Clone, Debug)]
pub struct TunnelData {
    pub id: String,
    pub name: String,
    pub local_port: String,
    pub proxy_host: String,
    pub proxy_port: String,
    pub proxy_username: String,
    pub save_proxy_password: bool,
    pub rsa_key_path: String,
    pub target_host: String,
    pub target_port: String,
    pub auto_connect: bool,
    pub is_running: bool,
    pub uptime: String,
    pub tx_rx: String,
    /// Bars of the connection indicator: 0 stopped, 3 idle, 4 with traffic.
    pub signal: i32,
}

/// A row of the tunnel list as values.
pub struct TunnelDataModel {
    pub id: Seq<char>,
    pub name: Seq<char>,
    pub local_port: Seq<char>,
    pub proxy_host: Seq<char>,
    pub proxy_port: Seq<char>,
    pub proxy_username: Seq<char>,
    pub save_proxy_password: bool,
    pub rsa_key_path: Seq<char>,
    pub target_host: Seq<char>,
    pub target_port: Seq<char>,
    pub auto_connect: bool,
    pub is_running: bool,
    pub uptime: Seq<char>,
    pub tx_rx: Seq<char>,
    pub signal: i32,
}

impl View for TunnelData {
    type V = TunnelDataModel;

    open spec fn view(&self) -> TunnelDataModel {
        TunnelDataModel {
            id: self.id@,
            name: self.name@,
            local_port: self.local_port@,
            proxy_host: self.proxy_host@,
            proxy_port: self.proxy_port@,
            proxy_username: self.proxy_username@,
            save_proxy_password: self.save_proxy_password,
            rsa_key_path: self.rsa_key_path@,
            target_host: self.target_host@,
            target_port: self.target_port@,
            auto_connect: self.auto_connect,
            is_running: self.is_running,
            uptime: self.uptime@,
            tx_rx: self.tx_rx@,
            signal: self.signal,
        }
    }
}

/// The settings form.
#[derive(Clone, Debug)]
pub struct AppSettings {
    pub connection_timeout: String,
    pub minimize_to_tray: bool,
    pub start_on_boot: bool,
}

/// The settings form as values.
pub struct AppSettingsModel {
    pub connection_timeout: Seq<char>,
    pub minimize_to_tray: bool,
    pub start_on_boot: bool,
}

impl View for AppSettings {
    type V = AppSettingsModel;

    open spec fn view(&self) -> AppSettingsModel {
        AppSettingsModel {
            connection_timeout: self.connection_timeout@,
            minimize_to_tray: self.minimize_to_tray,
            start_on_boot: self.start_on_boot,
        }
    }
}

/// `n / d` rounded to the nearest integer, a tie going to the even one.
pub open spec fn round_half_even(n: nat, d: nat) -> nat
    recommends
        d > 0,
{
    let q = n / d;
    let r = n % d;
    if r * 2 > d || (r * 2 == d && q % 2 == 1) {
        q + 1
    } else {
        q
    }
}

/// The spacing of the `f64` values around `b`: 1 below 2^53, doubling with
/// each further bit.
pub open spec fn f64_unit(b: nat) -> nat
    decreases b,
{
    if b < 0x20_0000_0000_0000 {
        1
    } else {
        2 * f64_unit(b / 2)
    }
}

/// The value of `b as f64`: `b` rounded to the nearest `f64`, a tie going
/// to the one with an even significand.
pub open spec fn f64_of(b: nat) -> nat {
    round_half_even(b, f64_unit(b)) * f64_unit(b)
}

/// A number of tenths written with one decimal, such as `12.5`.
pub open spec fn one_decimal_text(tenths: nat) -> Seq<char> {
    decimal(tenths / 10) + seq!['.'] + decimal(tenths % 10)
}

/// A byte count `v` as the list shows it: megabytes or kilobytes with one
/// decimal (rounded half to even), or whole bytes below 1024.
pub open spec fn byte_count_text(v: nat) -> Seq<char> {
    if v >= 1048576 {
        one_decimal_text(round_half_even(v * 10, 1048576)) + " MB"@
    } else if v >= 1024 {
        one_decimal_text(round_half_even(v * 10, 1024)) + " KB"@
    } else {
        decimal(v) + " B"@
    }
}

/// The uptime of a tunnel running for `e` seconds: `1h 2m 3s`, `2m 3s` or
/// `3s`.
pub open spec fn uptime_text(e: nat) -> Seq<char> {
    let h = e / 3600;
    let m = (e % 3600) / 60;
    let s = e % 60;
    if h > 0 {
        decimal(h) + "h "@ + decimal(m) + "m "@ + decimal(s) + "s"@
    } else if m > 0 {
        decimal(m) + "m "@ + decimal(s) + "s"@
    } else {
        decimal(s) + "s"@
    }
}

/// The traffic of a running tunnel: received, then sent.
pub open spec fn traffic_text(t: TelemetrySnapshot) -> Seq<char> {
    byte_count_text(f64_of(t.rx_bytes as nat)) + " / "@ + byte_count_text(f64_of(t.tx_bytes as nat))
}

/// The list row of a tunnel, running with the given counters or stopped.
pub open spec fn tunnel_data(c: TunnelConfigModel, running: Option<TelemetrySnapshot>) -> TunnelDataModel {
    TunnelDataModel {
        id: c.id,
        name: c.name,
        local_port: decimal(c.local_port as nat),
        proxy_host: c.proxy_host,
        proxy_port: decimal(c.proxy_port as nat),
        proxy_username: c.proxy_username,
        save_proxy_password: c.save_proxy_password,
        rsa_key_path: c.rsa_key_path,
        target_host: c.target_host,
        target_port: decimal(c.target_port as nat),
        auto_connect: c.auto_connect,
        is_running: running is Some,
        uptime: match running {
            Some(t) => uptime_text(t.elapsed_secs as nat),
            None => "Never Connected"@,
        },
        tx_rx: match running {
            Some(t) => traffic_text(t),
            None => "Never Connected"@,
        },
        signal: match running {
            Some(t) => if t.tx_bytes > 0 || t.rx_bytes > 0 {
                4
            } else {
                3
            },
            None => 0,
        },
    }
}

/// A port typed into the form, or `default` where it is not a number
/// from 0 to 65535.
pub open spec fn port_or(s: Seq<char>, default: u16) -> u16 {
    match parse_unsigned(s, 65535) {
        Some(v) => v as u16,
        None => default,
    }
}

/// The settings of a tunnel as the edited form gives them; ports that do
/// not read as numbers become 8080, 22 and 80.
pub open spec fn tunnel_config_of(d: TunnelDataModel) -> TunnelConfigModel {
    TunnelConfigModel {
        id: d.id,
        name: d.name,
        local_port: port_or(d.local_port, 8080),
        proxy_host: d.proxy_host,
        proxy_port: port_or(d.proxy_port, 22),
        proxy_username: d.proxy_username,
        save_proxy_password: d.save_proxy_password,
        rsa_key_path: d.rsa_key_path,
        target_host: d.target_host,
        target_port: port_or(d.target_port, 80),
        auto_connect: d.auto_connect,
    }
}

/// The settings form of the given settings.
pub open spec fn app_settings(c: AppConfig) -> AppSettingsModel {
    AppSettingsModel {
        connection_timeout: decimal(c.connection_timeout as nat),
        minimize_to_tray: c.minimize_to_tray,
        start_on_boot: c.start_on_boot,
    }
}

/// The settings as the edited form gives them; a timeout that does not
/// read as a `u64` becomes 10.
pub open spec fn app_config_of(s: AppSettingsModel) -> AppConfig {
    AppConfig {
        connection_timeout: match parse_unsigned(s.connection_timeout, 0xffff_ffff_ffff_ffff) {
            Some(v) => v as u64,
            None => 10,
        },
        minimize_to_tray: s.minimize_to_tray,
        start_on_boot: s.start_on_boot,
    }
}

/// Every count below 2^53 is held exactly by an `f64`.
pub proof fn lemma_f64_exact_below_2_53(b: nat)
    ensures
        b < 0x20_0000_0000_0000 ==> f64_of(b) == b,
{
    if b < 0x20_0000_0000_0000 {
        assert(f64_unit(b) == 1);
        assert(b / 1 == b && b % 1 == 0);
    }
}

/// The value `b as f64` holds, as an integer.
fn f64_value(b: u64) -> (r: u128)
    ensures
        r == f64_of(b as nat),
        r <= 0x1_0000_0000_0000_1000,
{
    let mut t: u64 = b;
    let mut u: u64 = 1;
    while t >= 0x20_0000_0000_0000
        invariant
            1 <= u < 0x1000,
            t == b as nat / u as nat,
            f64_unit(b as nat) == u * f64_unit(t as nat),
        decreases t,
    {
        proof {
            lemma_fundamental_div_mod(b as int, u as int);
            lemma_mul_inequality(0x20_0000_0000_0000, t as int, u as int);
            lemma_div_denominator(b as int, u as int, 2);
            assert(f64_unit(t as nat) == 2 * f64_unit((t / 2) as nat));
            assert(u * (2 * f64_unit((t / 2) as nat)) == (u * 2) * f64_unit((t / 2) as nat))
                by (nonlinear_arith);
        }
        t = t / 2;
        u = u * 2;
    }
    assert(f64_unit(t as nat) == 1);
    assert(u * f64_unit(t as nat) == u) by (nonlinear_arith)
        requires
            f64_unit(t as nat) == 1,
    ;
    assert(f64_unit(b as nat) == u);
    let q: u64 = b / u;
    let rem: u64 = b % u;
    proof {
        lemma_fundamental_div_mod(b as int, u as int);
    }
    let k: u64 = if rem * 2 > u || (rem * 2 == u && q % 2 == 1) {
        q + 1
    } else {
        q
    };
    assert(k == round_half_even(b as nat, u as nat));
    assert((k as u128) * (u as u128) <= 0x1_0000_0000_0000_1000) by (nonlinear_arith)
        requires
            k <= q + 1,
            u * q <= b,
            u < 0x1000,
            b <= 0xffff_ffff_ffff_ffff,
    ;
    (k as u128) * (u as u128)
}

/// Appends a number of tenths with one decimal.
fn push_one_decimal(s: &mut String, tenths: u128)
    requires
        tenths / 10 <= 0xffff_ffff_ffff_ffff,
    ensures
        final(s)@ == old(s)@ + one_decimal_text(tenths as nat),
{
    push_decimal(s, (tenths / 10) as u64);
    push_char(s, '.');
    push_decimal(s, (tenths % 10) as u64);
    assert(final(s)@ =~= old(s)@ + one_decimal_text(tenths as nat));
}

fn round_half_even_exec(n: u128, d: u128) -> (r: u128)
    requires
        0 < d <= 0x1_0000_0000,
        n < 0x1_0000_0000_0000_0000_0000_0000,
    ensures
        r == round_half_even(n as nat, d as nat),
{
    let q = n / d;
    let rem = n % d;
    if rem * 2 > d || (rem * 2 == d && q % 2 == 1) {
        q + 1
    } else {
        q
    }
}

/// A byte count as the tunnel list shows it: the count is first taken as
/// an `f64`, then written as megabytes or kilobytes with one decimal, or
/// as whole bytes.
pub fn format_bytes(b: u64) -> (s: String)
    ensures
        s@ == byte_count_text(f64_of(b as nat)),
        b < 1024 ==> s@ == decimal(b as nat) + " B"@,
        1024 <= b < 1048576 ==> s@ == one_decimal_text(round_half_even(b as nat * 10, 1024))
            + " KB"@,
        1048576 <= b < 0x20_0000_0000_0000 ==> s@ == one_decimal_text(
            round_half_even(b as nat * 10, 1048576),
        ) + " MB"@,
{
    proof {
        lemma_f64_exact_below_2_53(b as nat);
    }
    let v = f64_value(b);
    let mut s = String::new();
    if v >= 1048576 {
        let t = round_half_even_exec(v * 10, 1048576);
        push_one_decimal(&mut s, t);
        s.append(" MB");
    } else if v >= 1024 {
        let t = round_half_even_exec(v * 10, 1024);
        push_one_decimal(&mut s, t);
        s.append(" KB");
    } else {
        push_decimal(&mut s, v as u64);
        s.append(" B");
    }
    assert(s@ =~= byte_count_text(f64_of(b as nat)));
    s
}

/// How long a tunnel has been running, in hours, minutes and seconds.
pub fn format_uptime(elapsed: u64) -> (s: String)
    ensures
        s@ == uptime_text(elapsed as nat),
        elapsed < 60 ==> s@ == decimal(elapsed as nat) + "s"@,
        60 <= elapsed < 3600 ==> s@ == decimal(elapsed as nat / 60) + "m "@ + decimal(
            elapsed as nat % 60,
        ) + "s"@,
        3600 <= elapsed ==> s@ == decimal(elapsed as nat / 3600) + "h "@ + decimal(
            (elapsed as nat % 3600) / 60,
        ) + "m "@ + decimal(elapsed as nat % 60) + "s"@,
{
    let hours = elapsed / 3600;
    let mins = (elapsed % 3600) / 60;
    let secs = elapsed % 60;
    let mut s = String::new();
    if hours > 0 {
        push_decimal(&mut s, hours);
        s.append("h ");
        push_decimal(&mut s, mins);
        s.append("m ");
    } else if mins > 0 {
        push_decimal(&mut s, mins);
        s.append("m ");
    }
    push_decimal(&mut s, secs);
    s.append("s");
    assert(s@ =~= uptime_text(elapsed as nat));
    s
}


/// The list row of a tunnel: its settings with the ports written out, and,
/// when it runs, its uptime, its traffic and the signal bars.
pub fn config_to_data(c: &TunnelConfig, running_info: Option<TelemetrySnapshot>) -> (d: TunnelData)
    ensures
        d@ == tunnel_data(c@, running_info),
        d.id@ == c.id@,
        d.name@ == c.name@,
        d.proxy_host@ == c.proxy_host@,
        d.proxy_username@ == c.proxy_username@,
        d.save_proxy_password == c.save_proxy_password,
        d.rsa_key_path@ == c.rsa_key_path@,
        d.target_host@ == c.target_host@,
        d.auto_connect == c.auto_connect,
        d.is_running == running_info is Some,
        parse_unsigned(d.local_port@, 65535) == Some(c.local_port as nat),
        parse_unsigned(d.proxy_port@, 65535) == Some(c.proxy_port as nat),
        parse_unsigned(d.target_port@, 65535) == Some(c.target_port as nat),
        match running_info {
            None => d.signal == 0 && d.uptime@ == "Never Connected"@ && d.tx_rx@
                == "Never Connected"@,
            Some(t) => (d.signal == 4 <==> (t.tx_bytes > 0 || t.rx_bytes > 0)) && (d.signal == 3
                <==> (t.tx_bytes == 0 && t.rx_bytes == 0)) && d.uptime@ == uptime_text(
                t.elapsed_secs as nat,
            ) && d.tx_rx@ == byte_count_text(f64_of(t.rx_bytes as nat)) + " / "@
                + byte_count_text(f64_of(t.tx_bytes as nat)),
        },
{
    proof {
        lemma_parse_decimal_roundtrip(c.local_port as nat, 65535);
        lemma_parse_decimal_roundtrip(c.proxy_port as nat, 65535);
        lemma_parse_decimal_roundtrip(c.target_port as nat, 65535);
    }
    let is_running = running_info.is_some();
    let (uptime, tx_rx, signal) = match running_info {
        Some(tel) => {
            let uptime = format_uptime(tel.elapsed_secs);
            let mut tx_rx = format_bytes(tel.rx_bytes);
            let tx_text = format_bytes(tel.tx_bytes);
            tx_rx.append(" / ");
            tx_rx.append(tx_text.as_str());
            let signal: i32 = if tel.tx_bytes > 0 || tel.rx_bytes > 0 {
                4
            } else {
                3
            };
            (uptime, tx_rx, signal)
        },
        None => (String::from_str("Never Connected"), String::from_str("Never Connected"), 0),
    };
    let d = TunnelData {
        id: c.id.clone(),
        name: c.name.clone(),
        local_port: decimal_string(c.local_port as u64),
        proxy_host: c.proxy_host.clone(),
        proxy_port: decimal_string(c.proxy_port as u64),
        proxy_username: c.proxy_username.clone(),
        save_proxy_password: c.save_proxy_password,
        rsa_key_path: c.rsa_key_path.clone(),
        target_host: c.target_host.clone(),
        target_port: decimal_string(c.target_port as u64),
        auto_connect: c.auto_connect,
        is_running: is_running,
        uptime: uptime,
        tx_rx: tx_rx,
        signal: signal,
    };
    assert(d@.tx_rx =~= tunnel_data(c@, running_info).tx_rx);
    d
}

fn parse_port_or(s: &String, default: u16) -> (p: u16)
    ensures
        p == port_or(s@, default),
{
    match parse_unsigned_decimal(s.as_str(), 65535) {
        Some(v) => v as u16,
        None => default,
    }
}

/// The settings of a tunnel as the edited row gives them. A port that
/// does not read as a number from 0 to 65535 becomes the default one:
/// 8080 for the local port, 22 for the proxy, 80 for the target.
pub fn data_to_config(d: &TunnelData) -> (c: TunnelConfig)
    ensures
        c@ == tunnel_config_of(d@),
        c.id@ == d.id@,
        c.name@ == d.name@,
        c.proxy_host@ == d.proxy_host@,
        c.proxy_username@ == d.proxy_username@,
        c.save_proxy_password == d.save_proxy_password,
        c.rsa_key_path@ == d.rsa_key_path@,
        c.target_host@ == d.target_host@,
        c.auto_connect == d.auto_connect,
        c.local_port == (match parse_unsigned(d.local_port@, 65535) {
            Some(v) => v as u16,
            None => 8080u16,
        }),
        c.proxy_port == (match parse_unsigned(d.proxy_port@, 65535) {
            Some(v) => v as u16,
            None => 22u16,
        }),
        c.target_port == (match parse_unsigned(d.target_port@, 65535) {
            Some(v) => v as u16,
            None => 80u16,
        }),
{
    TunnelConfig {
        id: d.id.clone(),
        name: d.name.clone(),
        local_port: parse_port_or(&d.local_port, 8080),
        proxy_host: d.proxy_host.clone(),
        proxy_port: parse_port_or(&d.proxy_port, 22),
        proxy_username: d.proxy_username.clone(),
        save_proxy_password: d.save_proxy_password,
        rsa_key_path: d.rsa_key_path.clone(),
        target_host: d.target_host.clone(),
        target_port: parse_port_or(&d.target_port, 80),
        auto_connect: d.auto_connect,
    }
}

/// The settings form of the application settings.
pub fn app_config_to_settings(c: &AppConfig) -> (s: AppSettings)
    ensures
        s@ == app_settings(*c),
        s.minimize_to_tray == c.minimize_to_tray,
        s.start_on_boot == c.start_on_boot,
        parse_unsigned(s.connection_timeout@, 0xffff_ffff_ffff_ffff) == Some(
            c.connection_timeout as nat,
        ),
{
    proof {
        lemma_parse_decimal_roundtrip(c.connection_timeout as nat, 0xffff_ffff_ffff_ffff);
    }
    AppSettings {
        connection_timeout: decimal_string(c.connection_timeout),
        minimize_to_tray: c.minimize_to_tray,
        start_on_boot: c.start_on_boot,
    }
}

/// The application settings as the edited form gives them; a timeout that
/// does not read as a `u64` becomes 10 seconds.
pub fn settings_to_app_config(s: &AppSettings) -> (c: AppConfig)
    ensures
        c == app_config_of(s@),
        c.minimize_to_tray == s.minimize_to_tray,
        c.start_on_boot == s.start_on_boot,
        c.connection_timeout == (match parse_unsigned(
            s.connection_timeout@,
            0xffff_ffff_ffff_ffff,
        ) {
            Some(v) => v as u64,
            None => 10u64,
        }),
{
    let timeout = match parse_unsigned_decimal(s.connection_timeout.as_str(), 0xffff_ffff_ffff_ffff) {
        Some(v) => v,
        None => 10,
    };
    AppConfig {
        connection_timeout: timeout,
        minimize_to_tray: s.minimize_to_tray,
        start_on_boot: s.start_on_boot,
    }
}

/// Reading back the row of a tunnel gives its settings unchanged, whether
/// or not it runs.
pub proof fn lemma_tunnel_row_roundtrip(c: TunnelConfigModel, running: Option<TelemetrySnapshot>)
    ensures
        tunnel_config_of(tunnel_data(c, running)) == c,
{
    lemma_parse_decimal_roundtrip(c.local_port as nat, 65535);
    lemma_parse_decimal_roundtrip(c.proxy_port as nat, 65535);
    lemma_parse_decimal_roundtrip(c.target_port as nat, 65535);
}

/// Reading back the settings form gives the settings unchanged.
pub proof fn lemma_settings_form_roundtrip(c: AppConfig)
    ensures
        app_config_of(app_settings(c)) == c,
{
    lemma_parse_decimal_roundtrip(c.connection_timeout as nat, 0xffff_ffff_ffff_ffff);
}


/// A tunnel's row shows each setting in the field of the same name, with
/// the ports written so that they read back as the same numbers; a stopped
/// tunnel shows no bars, a running one four bars exactly when bytes went
/// either way and three otherwise.
pub proof fn lemma_row_shows_each_setting(c: TunnelConfigModel, running: Option<TelemetrySnapshot>)
    ensures
        tunnel_data(c, running).id == c.id,
        tunnel_data(c, running).name == c.name,
        tunnel_data(c, running).proxy_host == c.proxy_host,
        tunnel_data(c, running).proxy_username == c.proxy_username,
        tunnel_data(c, running).save_proxy_password == c.save_proxy_password,
        tunnel_data(c, running).rsa_key_path == c.rsa_key_path,
        tunnel_data(c, running).target_host == c.target_host,
        tunnel_data(c, running).auto_connect == c.auto_connect,
        tunnel_data(c, running).is_running == running is Some,
        parse_unsigned(tunnel_data(c, running).local_port, 65535) == Some(c.local_port as nat),
        parse_unsigned(tunnel_data(c, running).proxy_port, 65535) == Some(c.proxy_port as nat),
        parse_unsigned(tunnel_data(c, running).target_port, 65535) == Some(c.target_port as nat),
        running is None ==> tunnel_data(c, running).signal == 0,
        running matches Some(t) ==> (tunnel_data(c, running).signal == 4 <==> (t.tx_bytes > 0
            || t.rx_bytes > 0)),
        running matches Some(t) ==> (tunnel_data(c, running).signal == 3 <==> (t.tx_bytes == 0
            && t.rx_bytes == 0)),
{
    lemma_parse_decimal_roundtrip(c.local_port as nat, 65535);
    lemma_parse_decimal_roundtrip(c.proxy_port as nat, 65535);
    lemma_parse_decimal_roundtrip(c.target_port as nat, 65535);
}

/// Reading an edited row back keeps each text field and check box in the
/// setting of the same name, and takes each port from its own field
/// (its default where that field is not a number from 0 to 65535).
pub proof fn lemma_form_fills_each_setting(d: TunnelDataModel)
    ensures
        tunnel_config_of(d).id == d.id,
        tunnel_config_of(d).name == d.name,
        tunnel_config_of(d).proxy_host == d.proxy_host,
        tunnel_config_of(d).proxy_username == d.proxy_username,
        tunnel_config_of(d).save_proxy_password == d.save_proxy_password,
        tunnel_config_of(d).rsa_key_path == d.rsa_key_path,
        tunnel_config_of(d).target_host == d.target_host,
        tunnel_config_of(d).auto_connect == d.auto_connect,
        parse_unsigned(d.local_port, 65535) matches Some(v) ==> tunnel_config_of(d).local_port
            == v,
        parse_unsigned(d.proxy_port, 65535) matches Some(v) ==> tunnel_config_of(d).proxy_port
            == v,
        parse_unsigned(d.target_port, 65535) matches Some(v) ==> tunnel_config_of(d).target_port
            == v,
        parse_unsigned(d.local_port, 65535) is None ==> tunnel_config_of(d).local_port == 8080,
        parse_unsigned(d.proxy_port, 65535) is None ==> tunnel_config_of(d).proxy_port == 22,
        parse_unsigned(d.target_port, 65535) is None ==> tunnel_config_of(d).target_port == 80,
{
}

/// The settings form shows each check box for its own setting and reads it
/// back into the same one; the timeout reads back as the number shown.
pub proof fn lemma_settings_form_keeps_each_box(c: AppConfig, s: AppSettingsModel)
    ensures
        app_settings(c).minimize_to_tray == c.minimize_to_tray,
        app_settings(c).start_on_boot == c.start_on_boot,
        parse_unsigned(app_settings(c).connection_timeout, 0xffff_ffff_ffff_ffff) == Some(
            c.connection_timeout as nat,
        ),
        app_config_of(s).minimize_to_tray == s.minimize_to_tray,
        app_config_of(s).start_on_boot == s.start_on_boot,
        parse_unsigned(s.connection_timeout, 0xffff_ffff_ffff_ffff) matches Some(v)
            ==> app_config_of(s).connection_timeout == v,
        parse_unsigned(s.connection_timeout, 0xffff_ffff_ffff_ffff) is None
            ==> app_config_of(s).connection_timeout == 10,
{
    lemma_parse_decimal_roundtrip(c.connection_timeout as nat, 0xffff_ffff_ffff_ffff);
}

} // verus!
