use host_registry::registry::Registry;
use host_registry::report::{Float32, Float64, HostInfo};
use host_registry::service::{
    get_hosts, reject, update_host, validate, write_path, AppState, EMPTY_IP,
    UNPROCESSABLE_ENTITY,
};

fn host(ip: &str, hostname: &str, cpu_usage: f32) -> HostInfo {
    HostInfo {
        hostname: hostname.to_string(),
        ip: ip.to_string(),
        uptime: Float64::from_bits(123.45f64.to_bits()),
        cpu_usage: Float32::from_bits(cpu_usage.to_bits()),
        cpu_frequency: Float32::from_bits(2.5f32.to_bits()),
        gpu_usage: None,
        gpu_frequency: None,
        cpu_temperature: Float32::from_bits(60.0f32.to_bits()),
        gpu_temperature: None,
        memory_usage: Float32::from_bits(4.0f32.to_bits()),
        memory_max: Float32::from_bits(16.0f32.to_bits()),
        disks: vec![],
        processes: vec![],
        os_name: "TestOS".to_string(),
        os_version: "1.0".to_string(),
        os_kernel: "6.0".to_string(),
        os_architecture: "x86_64".to_string(),
        cpu_model: "TestCPU".to_string(),
        gpu_model: None,
    }
}

fn syntax_error_text(body: &[u8]) -> String {
    match axum::Json::<serde_json::Value>::from_bytes(body) {
        Ok(_) => panic!("the body was read as JSON"),
        Err(rejection) => rejection.to_string(),
    }
}

#[test]
fn get_hosts_empty() {
    let state = AppState::new();
    let hosts = get_hosts(&state);
    assert_eq!(hosts.len(), 0);
    assert_eq!(hosts, Vec::<HostInfo>::new());
}

#[test]
fn post_host_ok() {
    let state = AppState::new();
    let host_info = host("127.0.0.1", "test-host", 50.0);

    let response = update_host(&state, Ok(host_info));
    assert_eq!(response, Ok("ok"));

    let hosts = get_hosts(&state);
    assert_eq!(hosts.len(), 1);
    assert_eq!(hosts[0].hostname, "test-host");
    assert_eq!(hosts[0].gpu_usage, None);
}

#[test]
fn post_host_invalid_json() {
    let state = AppState::new();
    let reason = syntax_error_text(b"invalid json");
    assert!(!reason.is_empty());

    let response = update_host(&state, Err(reason.clone()));
    assert_eq!(response, Err((422, reason)));
    assert_eq!(get_hosts(&state).len(), 0);
}

#[test]
fn invalid_json_after_a_write_keeps_prior_state() {
    let state = AppState::new();
    assert_eq!(update_host(&state, Ok(host("127.0.0.1", "test-host", 50.0))), Ok("ok"));

    let reason = syntax_error_text(b"invalid json");
    let response = update_host(&state, Err(reason.clone()));
    assert_eq!(response, Err((422, reason)));

    let hosts = get_hosts(&state);
    assert_eq!(hosts, vec![host("127.0.0.1", "test-host", 50.0)]);
}

#[test]
fn rejected_write_keeps_prior_state() {
    let state = AppState::new();
    assert_eq!(update_host(&state, Ok(host("10.0.0.1", "one", 10.0))), Ok("ok"));
    let before = get_hosts(&state);

    let response = update_host(&state, Err("missing field `ip`".to_string()));
    assert_eq!(response, Err((UNPROCESSABLE_ENTITY, "missing field `ip`".to_string())));

    let after = get_hosts(&state);
    assert_eq!(after, before);
    assert_eq!(after.len(), 1);
    assert_eq!(after[0], host("10.0.0.1", "one", 10.0));
}

#[test]
fn later_write_for_same_ip_wins() {
    let state = AppState::new();
    assert_eq!(update_host(&state, Ok(host("10.0.0.1", "first", 10.0))), Ok("ok"));
    assert_eq!(update_host(&state, Ok(host("10.0.0.1", "second", 90.0))), Ok("ok"));
    let hosts = get_hosts(&state);
    assert_eq!(hosts.len(), 1);
    assert_eq!(hosts[0].ip, "10.0.0.1");
    assert_eq!(f32::from_bits(hosts[0].cpu_usage.to_bits()), 90.0);
    assert_eq!(hosts[0].hostname, "second");
}

#[test]
fn writes_for_two_ips_are_both_listed() {
    let state = AppState::new();
    assert_eq!(update_host(&state, Ok(host("10.0.0.1", "one", 10.0))), Ok("ok"));
    assert_eq!(update_host(&state, Ok(host("10.0.0.2", "two", 20.0))), Ok("ok"));
    let hosts = get_hosts(&state);
    assert_eq!(hosts.len(), 2);
    assert!(hosts.contains(&host("10.0.0.1", "one", 10.0)));
    assert!(hosts.contains(&host("10.0.0.2", "two", 20.0)));
}

#[test]
fn copies_of_state_share_one_registry() {
    let state = AppState::new();
    let writer = state.clone();
    let reader = state.clone();
    assert_eq!(update_host(&writer, Ok(host("10.0.0.1", "one", 10.0))), Ok("ok"));
    assert_eq!(get_hosts(&reader).len(), 1);
    assert_eq!(get_hosts(&state).len(), 1);
}

#[test]
fn separate_states_are_independent() {
    let one = AppState::new();
    let other = AppState::new();
    assert_eq!(update_host(&one, Ok(host("10.0.0.1", "one", 10.0))), Ok("ok"));
    assert_eq!(get_hosts(&one).len(), 1);
    assert_eq!(get_hosts(&other).len(), 0);
}

#[test]
fn reads_do_not_consume_the_registry() {
    let state = AppState::new();
    assert_eq!(update_host(&state, Ok(host("10.0.0.1", "one", 10.0))), Ok("ok"));
    let first = get_hosts(&state);
    let second = get_hosts(&state);
    assert_eq!(first, second);
    assert_eq!(first.len(), 1);
}

#[test]
fn reject_gives_status_422_and_reason() {
    assert_eq!(UNPROCESSABLE_ENTITY, 422);
    assert_eq!(reject("bad".to_string()), (422, "bad".to_string()));
    assert_eq!(reject(String::new()), (422, String::new()));
}

#[test]
fn write_path_stores_report() {
    let mut registry = Registry::new();
    let response = write_path(&mut registry, Ok(host("127.0.0.1", "test-host", 50.0)));
    assert_eq!(response, Ok("ok"));
    assert_eq!(registry.snapshot(), vec![host("127.0.0.1", "test-host", 50.0)]);
}

#[test]
fn write_path_rejection_leaves_registry() {
    let mut registry = Registry::new();
    assert_eq!(write_path(&mut registry, Ok(host("10.0.0.1", "one", 10.0))), Ok("ok"));

    let reason = syntax_error_text(b"{\"ip\": ");
    let response = write_path(&mut registry, Err(reason.clone()));
    assert_eq!(response, Err((422, reason)));
    assert_eq!(registry.snapshot(), vec![host("10.0.0.1", "one", 10.0)]);

    let response = write_path(&mut registry, Err(String::new()));
    assert_eq!(response, Err((422, String::new())));
    assert_eq!(registry.snapshot(), vec![host("10.0.0.1", "one", 10.0)]);
}

#[test]
fn concurrent_writers_leave_one_entry_per_ip() {
    let runtime = tokio::runtime::Builder::new_multi_thread().worker_threads(4).build().unwrap();
    let state = AppState::new();
    let mut workers = Vec::new();
    for worker in 0..4 {
        let shared = state.clone();
        workers.push(runtime.spawn_blocking(move || {
            for n in 0..25 {
                let name = format!("worker-{worker}");
                let written = update_host(&shared, Ok(host(&format!("10.0.0.{n}"), &name, 1.0)));
                assert_eq!(written, Ok("ok"));
                let seen = get_hosts(&shared);
                for (i, a) in seen.iter().enumerate() {
                    assert!(seen[i + 1..].iter().all(|b| b.ip != a.ip));
                    assert!(a.hostname.starts_with("worker-"));
                }
            }
        }));
    }
    for worker in workers {
        runtime.block_on(worker).unwrap();
    }
    let hosts = get_hosts(&state);
    assert_eq!(hosts.len(), 25);
    for n in 0..25 {
        assert_eq!(hosts.iter().filter(|h| h.ip == format!("10.0.0.{n}")).count(), 1);
    }
}

#[test]
fn empty_ip_is_rejected_and_not_stored() {
    let state = AppState::new();
    let response = update_host(&state, Ok(host("", "nameless", 50.0)));
    assert_eq!(response, Err((422, "invalid report: `ip` must not be empty".to_string())));
    assert_eq!(get_hosts(&state), Vec::<HostInfo>::new());
}

#[test]
fn empty_ip_after_a_write_keeps_prior_state() {
    let state = AppState::new();
    assert_eq!(update_host(&state, Ok(host("10.0.0.1", "one", 10.0))), Ok("ok"));
    let before = get_hosts(&state);

    let response = update_host(&state, Ok(host("", "nameless", 50.0)));
    assert_eq!(response, Err((UNPROCESSABLE_ENTITY, EMPTY_IP.to_string())));

    let after = get_hosts(&state);
    assert_eq!(after, before);
    assert_eq!(after, vec![host("10.0.0.1", "one", 10.0)]);
    assert!(after.iter().all(|h| !h.ip.is_empty()));
}

#[test]
fn write_path_rejects_empty_ip() {
    let mut registry = Registry::new();
    assert_eq!(write_path(&mut registry, Ok(host("10.0.0.1", "one", 10.0))), Ok("ok"));

    let response = write_path(&mut registry, Ok(host("", "nameless", 50.0)));
    assert_eq!(response, Err((422, EMPTY_IP.to_string())));
    assert_eq!(registry.snapshot(), vec![host("10.0.0.1", "one", 10.0)]);
}

#[test]
fn blank_ip_is_not_empty() {
    let state = AppState::new();
    assert_eq!(update_host(&state, Ok(host(" ", "blank", 1.0))), Ok("ok"));
    let hosts = get_hosts(&state);
    assert_eq!(hosts.len(), 1);
    assert_eq!(hosts[0].ip, " ");
}

#[test]
fn validate_passes_named_reports_and_reasons() {
    assert_eq!(validate(Ok(host("10.0.0.1", "one", 10.0))), Ok(host("10.0.0.1", "one", 10.0)));
    assert_eq!(validate(Ok(host("x", "", 0.0))), Ok(host("x", "", 0.0)));
    assert_eq!(validate(Err("bad".to_string())), Err("bad".to_string()));
    assert_eq!(validate(Err(String::new())), Err(String::new()));
}

#[test]
fn validate_turns_away_empty_ip() {
    assert_eq!(EMPTY_IP, "invalid report: `ip` must not be empty");
    assert_eq!(validate(Ok(host("", "nameless", 50.0))), Err(EMPTY_IP.to_string()));
}
