use nexbox::network::{batch_action, batch_label, batch_steps, network_batch_result, BatchAction, BatchStep};
use nexbox::network::{
    adapter_power_saving_off, batch_outcome, batch_step_error, command_failure_message,
    decode_console, dhcp_step_aborts, dns_pair, dns_query_packet, dns_response_valid,
    dns_servers_script, extract_ipv4, find_ipv4, is_access_denied, is_chimney_disabled,
    is_congestion_optimized, is_valid_ipv4, netsh_outcome, physical_interface_ids, pnp_capabilities,
    public_ip_providers, PublicIpProvider,
};

#[test]
fn ipv4_validity() {
    assert!(is_valid_ipv4("192.168.1.1"));
    assert!(is_valid_ipv4("0.0.0.0"));
    assert!(!is_valid_ipv4("256.1.1.1"));
    assert!(!is_valid_ipv4("1.2.3"));
    assert!(!is_valid_ipv4("1.2.3.4.5"));
    assert!(!is_valid_ipv4("1.2.3.1234"));
}

#[test]
fn found_ipv4_is_valid() {
    let found = find_ipv4("当前 IP：123.45.67.89  来自于：中国").unwrap();
    assert_eq!(found, "123.45.67.89");
    assert!(is_valid_ipv4(&found));
    assert_eq!(find_ipv4("no address 999.1.1.1 here"), None);
}

#[test]
fn trace_answer_gives_the_ip_line() {
    let text = "fl=1\nh=cloudflare.com\nip=8.8.4.4\nts=1\n";
    assert_eq!(extract_ipv4(text, PublicIpProvider::Trace).as_deref(), Some("8.8.4.4"));
    assert_eq!(extract_ipv4("  1.1.1.1\n", PublicIpProvider::Plain).as_deref(), Some("1.1.1.1"));
    let providers = public_ip_providers();
    assert_eq!(providers.len(), 6);
    assert_eq!(providers[5].0, "https://cloudflare.com/cdn-cgi/trace");
}

#[test]
fn console_output_is_read_as_gbk() {
    assert_eq!(decode_console(vec![0xD6, 0xD0, b'A']), "中A");
}

#[test]
fn tcp_settings_are_recognised() {
    assert!(is_chimney_disabled("Chimney Offload State : disabled"));
    assert!(!is_chimney_disabled("Chimney Offload State : enabled"));
    assert!(!is_chimney_disabled("disabled"));
    assert!(is_congestion_optimized("Congestion Control Provider: CUBIC"));
    assert!(!is_congestion_optimized("newreno"));
}

#[test]
fn access_denied_becomes_the_admin_message() {
    assert!(is_access_denied("Access is denied."));
    assert!(dhcp_step_aborts("拒绝访问。"));
    assert_eq!(
        command_failure_message("切换 DNS 失败: ", "", "  Access denied  "),
        "需要管理员权限，请以管理员身份运行 NexBox"
    );
    assert_eq!(command_failure_message("切换 DNS 失败: ", " boom ", ""), "切换 DNS 失败: boom");
    assert_eq!(netsh_outcome(true, b"ok".to_vec(), vec![]), Ok("ok".to_string()));
    assert_eq!(netsh_outcome(false, b" bad \n".to_vec(), vec![]), Err("命令执行失败: bad".to_string()));
}

#[test]
fn batch_joins_step_errors() {
    let ok = batch_outcome(&vec![], "done").unwrap();
    assert!(ok.success);
    assert_eq!(ok.message, "done");
    let err = batch_outcome(&vec!["a: x".to_string(), "b: y".to_string()], "done");
    assert_eq!(err.err(), Some("a: x; b: y".to_string()));
    assert_eq!(batch_step_error("a", "x"), "a: x");
}

#[test]
fn power_saving_bit_roundtrip() {
    let (on, changed) = pnp_capabilities(0x18, true);
    assert_eq!((on, changed), (0x118, true));
    assert!(adapter_power_saving_off(Some(on)));
    let (off, changed2) = pnp_capabilities(on, false);
    assert_eq!((off, changed2), (0x18, true));
    assert!(!adapter_power_saving_off(Some(off)));
    assert!(!adapter_power_saving_off(None));
    assert_eq!(pnp_capabilities(0x118, true), (0x118, false));
}

#[test]
fn dns_helpers() {
    assert_eq!(
        dns_pair(Some("223.5.5.5,119.29.29.29"), None),
        Some(("223.5.5.5".to_string(), "119.29.29.29".to_string()))
    );
    let pkt = dns_query_packet();
    assert_eq!(&pkt[0..2], &[0x4E, 0x58]);
    assert!(dns_response_valid(12, &pkt));
    assert!(!dns_response_valid(11, &pkt));
    let script = dns_servers_script("1.1.1.1", "8.8.8.8");
    assert!(script.contains("-ServerAddresses (\"1.1.1.1\", \"8.8.8.8\")"));
    assert_eq!(
        physical_interface_ids(&vec!["{a}".to_string(), "  ".to_string(), "{b}".to_string()]),
        vec!["{a}".to_string(), "{b}".to_string()]
    );
}

#[test]
fn network_batch_runs_every_step_and_labels_failures() {
    let steps = batch_steps();
    assert_eq!(steps, vec![BatchStep::Congestion, BatchStep::Chimney, BatchStep::Nagle, BatchStep::AdapterPowerSaving]);
    let labels: Vec<&str> = steps.iter().map(|s| batch_label(*s)).collect();
    assert_eq!(labels, vec!["TCP 拥塞控制", "Chimney Offload", "Nagle", "网卡省电"]);
    assert!(matches!(batch_action(BatchStep::Congestion, true), BatchAction::CongestionProvider("ctcp")));
    assert!(matches!(batch_action(BatchStep::Congestion, false), BatchAction::CongestionProvider("newreno")));
    assert!(matches!(batch_action(BatchStep::Chimney, true), BatchAction::ChimneyState("disabled")));
    assert!(matches!(batch_action(BatchStep::Nagle, false), BatchAction::RestoreNagle));
    assert!(matches!(batch_action(BatchStep::AdapterPowerSaving, true), BatchAction::PowerSavingOff(true)));
    let ok = network_batch_result(true, &vec![Ok(()), Ok(()), Ok(()), Ok(())]).unwrap();
    assert!(ok.success);
    assert_eq!(ok.message, "网络优化已全部应用");
    assert_eq!(network_batch_result(false, &vec![Ok(()), Ok(()), Ok(()), Ok(())]).unwrap().message, "网络优化已全部恢复");
    let err = network_batch_result(true, &vec![Err("a".to_string()), Ok(()), Ok(()), Err("b".to_string())]);
    assert_eq!(err.err(), Some("TCP 拥塞控制: a; 网卡省电: b".to_string()));
}
