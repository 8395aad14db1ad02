use rtunnel::config::{AppConfig, TunnelConfig};
use rtunnel::view::{
    app_config_to_settings, config_to_data, data_to_config, format_bytes, format_uptime,
    settings_to_app_config, AppSettings, TelemetrySnapshot,
};

/// The byte text as the list has always written it, with floats.
fn float_bytes(b: f64) -> String {
    if b >= 1_048_576.0 {
        format!("{:.1} MB", b / 1_048_576.0)
    } else if b >= 1024.0 {
        format!("{:.1} KB", b / 1024.0)
    } else {
        format!("{} B", b)
    }
}

fn sample_config() -> TunnelConfig {
    TunnelConfig {
        id: "id-1".to_string(),
        name: "Office DB".to_string(),
        local_port: 5432,
        proxy_host: "jump.example.com".to_string(),
        proxy_port: 2222,
        proxy_username: "alice".to_string(),
        save_proxy_password: false,
        rsa_key_path: "/home/alice/.ssh/id_rsa".to_string(),
        target_host: "10.0.0.5".to_string(),
        target_port: 5432,
        auto_connect: true,
    }
}

#[test]
fn byte_counts_match_float_formatting() {
    for b in 0u64..5000 {
        assert_eq!(format_bytes(b), float_bytes(b as f64), "bytes {}", b);
    }
    let mut probes: Vec<u64> = vec![
        1_048_575, 1_048_576, 1_048_577, 1_310_720, 1_363_148, 1_415_577, 104_857_600,
        (1u64 << 53) - 1, 1u64 << 53, (1u64 << 53) + 1, (1u64 << 53) + 3, (1u64 << 54) + 2,
        (1u64 << 54) + 6, u64::MAX, u64::MAX - 1, u64::MAX / 3, 1u64 << 63,
    ];
    let mut x: u64 = 0x9e37_79b9_7f4a_7c15;
    for _ in 0..20000 {
        x ^= x << 13;
        x ^= x >> 7;
        x ^= x << 17;
        probes.push(x >> (x % 50));
        probes.push((x % 2000) * 104_858);
        probes.push((x % 20000) * 52_429);
    }
    for k in 1u64..4000 {
        probes.push(k * 524_288);
        probes.push(k * 512);
        probes.push(k * 104_857_6 / 10);
    }
    for b in probes {
        assert_eq!(format_bytes(b), float_bytes(b as f64), "bytes {}", b);
    }
}

#[test]
fn byte_count_examples() {
    assert_eq!(format_bytes(0), "0 B");
    assert_eq!(format_bytes(1023), "1023 B");
    assert_eq!(format_bytes(1024), "1.0 KB");
    assert_eq!(format_bytes(1536), "1.5 KB");
    assert_eq!(format_bytes(1_048_576), "1.0 MB");
    assert_eq!(format_bytes(5 * 1_048_576 + 524_288), "5.5 MB");
}

#[test]
fn uptime_texts() {
    assert_eq!(format_uptime(0), "0s");
    assert_eq!(format_uptime(59), "59s");
    assert_eq!(format_uptime(60), "1m 0s");
    assert_eq!(format_uptime(3599), "59m 59s");
    assert_eq!(format_uptime(3600), "1h 0m 0s");
    assert_eq!(format_uptime(3661), "1h 1m 1s");
    assert_eq!(format_uptime(90061), "25h 1m 1s");
}

#[test]
fn stopped_tunnel_row() {
    let c = sample_config();
    let d = config_to_data(&c, None);
    assert_eq!(d.id, "id-1");
    assert_eq!(d.name, "Office DB");
    assert_eq!(d.local_port, "5432");
    assert_eq!(d.proxy_port, "2222");
    assert_eq!(d.target_port, "5432");
    assert_eq!(d.proxy_host, "jump.example.com");
    assert_eq!(d.rsa_key_path, "/home/alice/.ssh/id_rsa");
    assert!(!d.save_proxy_password);
    assert!(d.auto_connect);
    assert!(!d.is_running);
    assert_eq!(d.uptime, "Never Connected");
    assert_eq!(d.tx_rx, "Never Connected");
    assert_eq!(d.signal, 0);
}

#[test]
fn running_tunnel_rows() {
    let c = sample_config();
    let idle = config_to_data(
        &c,
        Some(TelemetrySnapshot { elapsed_secs: 125, tx_bytes: 0, rx_bytes: 0 }),
    );
    assert!(idle.is_running);
    assert_eq!(idle.uptime, "2m 5s");
    assert_eq!(idle.tx_rx, "0 B / 0 B");
    assert_eq!(idle.signal, 3);
    let busy = config_to_data(
        &c,
        Some(TelemetrySnapshot { elapsed_secs: 7322, tx_bytes: 2048, rx_bytes: 3 * 1_048_576 }),
    );
    assert_eq!(busy.uptime, "2h 2m 2s");
    assert_eq!(busy.tx_rx, "3.0 MB / 2.0 KB");
    assert_eq!(busy.signal, 4);
    let sending = config_to_data(
        &c,
        Some(TelemetrySnapshot { elapsed_secs: 1, tx_bytes: 1, rx_bytes: 0 }),
    );
    assert_eq!(sending.signal, 4);
}

#[test]
fn edited_row_reads_back() {
    let c = sample_config();
    let mut d = config_to_data(&c, None);
    let back = data_to_config(&d);
    assert_eq!(back.id, c.id);
    assert_eq!(back.name, c.name);
    assert_eq!(back.local_port, 5432);
    assert_eq!(back.proxy_port, 2222);
    assert_eq!(back.target_port, 5432);
    assert_eq!(back.proxy_username, "alice");
    assert_eq!(back.auto_connect, true);
    d.local_port = "not a port".to_string();
    d.proxy_port = "70000".to_string();
    d.target_port = "".to_string();
    let fallback = data_to_config(&d);
    assert_eq!(fallback.local_port, 8080);
    assert_eq!(fallback.proxy_port, 22);
    assert_eq!(fallback.target_port, 80);
    d.local_port = "+9000".to_string();
    assert_eq!(data_to_config(&d).local_port, 9000);
}

#[test]
fn settings_form_reads_back() {
    let a = AppConfig { connection_timeout: 30, minimize_to_tray: false, start_on_boot: true };
    let s = app_config_to_settings(&a);
    assert_eq!(s.connection_timeout, "30");
    assert_eq!(settings_to_app_config(&s), a);
    let odd = AppSettings {
        connection_timeout: "soon".to_string(),
        minimize_to_tray: true,
        start_on_boot: false,
    };
    assert_eq!(settings_to_app_config(&odd).connection_timeout, 10);
}
