use xhttp_tunnel::options::{
    get_arg, get_port, get_quic_port, get_ssh_port, get_status, has_arg, read_options,
};

fn args(list: &[&str]) -> Vec<String> {
    list.iter().map(|s| s.to_string()).collect()
}

#[test]
fn defaults_of_the_command_line() {
    let a = args(&["mpro"]);
    assert_eq!(get_port(&a), 8000);
    assert_eq!(get_quic_port(&a), 8001);
    assert_eq!(get_ssh_port(&a), 22);
    assert_eq!(get_status(&a), "@Mpro");
    let o = read_options(&a);
    assert!(!o.use_udp && !o.use_quic);
    assert_eq!(o.tun_interface, "tun0");
    assert_eq!(o.subnet, "10.10.0.0/16");
    assert_eq!(get_port(&args(&[])), 8000);
}

#[test]
fn settings_from_the_command_line() {
    let a = args(&[
        "mpro", "-p", "443", "-u", "--quic", "--quic-port", "9001", "--ssh-port", "2222", "-s", "hi",
        "--tun", "tun7", "--subnet", "10.0.0.0/8",
    ]);
    let o = read_options(&a);
    assert_eq!(o.port, 443);
    assert_eq!(o.status, "hi");
    assert_eq!(o.ssh_port, 2222);
    assert_eq!(o.quic_port, 9001);
    assert_eq!(o.tun_interface, "tun7");
    assert_eq!(o.subnet, "10.0.0.0/8");
    assert!(o.use_udp && o.use_quic);
    assert_eq!(o.protocols(), "tcp:443,udp:443,quic:9001");
}

#[test]
fn first_place_counts() {
    assert_eq!(get_port(&args(&["x", "--port", "1", "-p", "2"])), 1);
    assert_eq!(get_port(&args(&["x", "-p", "2", "--port", "1"])), 2);
    assert_eq!(get_port(&args(&["x", "-p", "y", "--port", "1"])), 8000);
    assert_eq!(get_port(&args(&["x", "-p"])), 8000);
    assert_eq!(get_status(&args(&["x", "-s", "--status", "z"])), "--status");
}

#[test]
fn ports_that_do_not_read() {
    for text in ["65536", "-1", "", "+", "8o", " 80"] {
        assert_eq!(get_port(&args(&["x", "-p", text])), 8000);
    }
    assert_eq!(get_port(&args(&["x", "-p", "65535"])), 65535);
    assert_eq!(get_port(&args(&["x", "-p", "+0080"])), 80);
    assert_eq!(get_port(&args(&["x", "-p", "0"])), 0);
}

#[test]
fn single_arguments() {
    let a = args(&["x", "--udp", "v", "--tun"]);
    assert!(has_arg(&a, "--udp"));
    assert!(has_arg(&a, "x"));
    assert!(!has_arg(&a, "-u"));
    assert_eq!(get_arg(&a, "--udp"), Some("v".to_string()));
    assert_eq!(get_arg(&a, "--tun"), None);
    assert_eq!(get_arg(&a, "--no"), None);
}

#[test]
fn banner_shows_the_settings() {
    let o = read_options(&args(&["x", "-q", "--subnet", "ü"]));
    let rule = "+--------------------------------------------------------+";
    assert_eq!(o.protocols(), "tcp:8000,quic:8001");
    assert_eq!(
        o.banner(),
        vec![
            rule.to_string(),
            "|  Proxy + Protocolo integrados (Mpro XHTTP v3.7.0)    |".to_string(),
            "|  Stability Enhanced - Redes Móveis                    |".to_string(),
            rule.to_string(),
            "|  CONFIGURACOES ATUAIS                                  |".to_string(),
            rule.to_string(),
            format!("|  Porta: {:<47}|", 8000),
            format!("|  Sub-rede: {:<45}|", "ü"),
            format!("|  Interface TUN: {:<40}|", "tun0"),
            format!("|  Protocolos: {:<42}|", "tcp:8000,quic:8001"),
            "|  Peek=500ms | TLS read=3000ms | SSH connect=5s  |".to_string(),
            "|  POST timeout=10s | SSH read=300s            |".to_string(),
            "|  Reconnect=3x | Channel=8192                |".to_string(),
            "|  Keep-Alive: timeout=30 max=100              |".to_string(),
            "|  TCP_QUICKACK | Buffer=16384                    |".to_string(),
            rule.to_string(),
        ]
    );
}

#[test]
fn long_text_is_not_cut_in_the_banner() {
    let long = "s".repeat(60);
    let o = read_options(&args(&["x", "--subnet", &long]));
    assert_eq!(o.banner()[7], format!("|  Sub-rede: {}|", long));
}
