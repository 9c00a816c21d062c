use ldd_nat_cross_rclient::builder::{build_auth_message, build_disconnect_message};
use ldd_nat_cross_rclient::client::{Action, Client, ClientState, worker_relay_frame, worker_start_frames};
use ldd_nat_cross_rclient::message::{CmdType, TransferDataMessage, TransferMessageMetaData};
use ldd_nat_cross_rclient::protocol::ProtocolEnum;
use ldd_nat_cross_rclient::proxy::ProxyConfig;
use ldd_nat_cross_rclient::queue::OutboundQueue;

fn proxy() -> ProxyConfig {
    ProxyConfig::new("localhost".to_string(), 3306, 9011, ProtocolEnum::TCP)
}

fn inbound(cmd: CmdType, fields: Vec<(String, String)>) -> TransferDataMessage {
    TransferDataMessage {
        cmd_type: cmd,
        meta_data: TransferMessageMetaData { timestamp: 0, meta_data: fields },
        data: Vec::new(),
    }
}

fn new_client() -> Client<u32> {
    Client::new("secret".to_string(), proxy())
}

fn serving_client() -> Client<u32> {
    let mut c = new_client();
    let ok = inbound(CmdType::AuthOk, vec![("license_key".to_string(), "L-1".to_string())]);
    c.handle_frame(&ok);
    c
}

#[test]
fn auth_frame_carries_password() {
    let c = new_client();
    let auth = c.auth_frame();
    assert_eq!(auth.cmd_type, CmdType::Auth);
    assert_eq!(auth.get_meta("auth_password").map(|s| s.clone()), Some("secret".to_string()));
}

#[test]
fn auth_ok_emits_exactly_one_open_server_with_license() {
    let mut c = new_client();
    let ok = inbound(CmdType::AuthOk, vec![("license_key".to_string(), "L-77".to_string())]);
    let actions = c.handle_frame(&ok);
    assert_eq!(actions.len(), 1);
    match &actions[0] {
        Action::Send(os) => {
            assert_eq!(os.cmd_type, CmdType::OpenServer);
            assert_eq!(os.get_meta("license_key").map(|s| s.clone()), Some("L-77".to_string()));
            assert_eq!(os.get_meta("proxy_host").map(|s| s.clone()), Some("localhost".to_string()));
            assert_eq!(os.get_meta("proxy_port").map(|s| s.clone()), Some("3306".to_string()));
            assert_eq!(os.get_meta("open_port").map(|s| s.clone()), Some("9011".to_string()));
            assert_eq!(os.get_meta("proxy_protocol").map(|s| s.clone()), Some("tcp".to_string()));
        },
        _ => panic!("expected a Send action"),
    }
    // a second AuthOk no longer produces an OpenServer: exactly one in total
    let again = inbound(CmdType::AuthOk, vec![("license_key".to_string(), "L-77".to_string())]);
    let actions2 = c.handle_frame(&again);
    assert!(!actions2.iter().any(|a| matches!(a, Action::Send(m) if m.cmd_type == CmdType::OpenServer)));
    assert_eq!(c.license_key().map(|s| s.clone()), None);
}

#[test]
fn auth_ok_without_license_key_is_fatal() {
    let mut c = new_client();
    let ok = inbound(CmdType::AuthOk, Vec::new());
    let actions = c.handle_frame(&ok);
    assert_eq!(actions.len(), 1);
    assert!(matches!(actions[0], Action::Stop));
    assert!(matches!(c.state, ClientState::Terminated));
}

#[test]
fn auth_err_terminates() {
    let mut c = new_client();
    let err = inbound(CmdType::AuthErr, vec![("license_key".to_string(), "x".to_string())]);
    let actions = c.handle_frame(&err);
    assert_eq!(actions.len(), 1);
    assert!(matches!(actions[0], Action::Stop));
    assert!(matches!(c.state, ClientState::Terminated));
}

#[test]
fn connect_starts_session_for_decodable_target() {
    let mut c = serving_client();
    let mut fields = proxy().to_map();
    fields.push(("visitor_id".to_string(), "v1".to_string()));
    let connect = inbound(CmdType::Connect, fields);
    let actions = c.handle_frame(&connect);
    assert_eq!(actions.len(), 1);
    match &actions[0] {
        Action::StartSession { visitor_id, proxy } => {
            assert_eq!(visitor_id, "v1");
            assert_eq!(proxy.host(), "localhost");
            assert_eq!(proxy.port(), 3306);
        },
        _ => panic!("expected a StartSession action"),
    }
}

#[test]
fn transfer_for_unregistered_visitor_is_recoverable_noop() {
    let mut c = serving_client();
    c.register("v1".to_string(), 11);
    let mut stray = inbound(
        CmdType::Transfer,
        vec![("visitor_id".to_string(), "v9".to_string())],
    );
    stray.data = vec![1, 2, 3];
    let actions = c.handle_frame(&stray);
    assert!(actions.is_empty());
    assert!(matches!(c.state, ClientState::Serving { .. }));
    // the other session keeps operating
    let mut good = inbound(
        CmdType::Transfer,
        vec![("visitor_id".to_string(), "v1".to_string())],
    );
    good.data = vec![4, 5];
    let actions = c.handle_frame(&good);
    assert_eq!(actions.len(), 1);
    match &actions[0] {
        Action::Forward { visitor_id, data } => {
            assert_eq!(visitor_id, "v1");
            assert_eq!(data, &vec![4, 5]);
        },
        _ => panic!("expected a Forward action"),
    }
}

#[test]
fn disconnect_twice_is_idempotent() {
    let mut c = serving_client();
    c.register("v1".to_string(), 5);
    let bye = inbound(CmdType::Disconnect, vec![("visitor_id".to_string(), "v1".to_string())]);
    let first = c.handle_frame(&bye);
    assert!(first.is_empty());
    assert_eq!(c.registry.get_sender("v1"), None);
    let count_after_first = c.registry.len();
    let second = c.handle_frame(&bye);
    assert!(second.is_empty());
    assert_eq!(c.registry.len(), count_after_first);
    assert!(matches!(c.state, ClientState::Serving { .. }));
}

#[test]
fn unrecognized_command_ends_serving_loop() {
    let mut c = serving_client();
    let odd = inbound(CmdType::Unrecognized(99), Vec::new());
    let actions = c.handle_frame(&odd);
    assert_eq!(actions.len(), 1);
    assert!(matches!(actions[0], Action::Stop));
    assert!(matches!(c.state, ClientState::Terminated));
}

#[test]
fn worker_connect_failure_sends_exactly_one_disconnect() {
    let frames = worker_start_frames(false, proxy(), "L-1".to_string(), "v1".to_string());
    assert_eq!(frames.len(), 1);
    assert_eq!(frames[0].cmd_type, CmdType::Disconnect);
    assert_eq!(frames[0].get_meta("license_key").map(|s| s.clone()), Some("L-1".to_string()));
    assert_eq!(frames[0].get_meta("visitor_id").map(|s| s.clone()), Some("v1".to_string()));
    let expected = build_disconnect_message("L-1".to_string(), "v1".to_string());
    assert_eq!(frames[0].meta_data.meta_data, expected.meta_data.meta_data);
}

#[test]
fn worker_connect_success_acknowledges() {
    let frames = worker_start_frames(true, proxy(), "L-1".to_string(), "v1".to_string());
    assert_eq!(frames.len(), 1);
    assert_eq!(frames[0].cmd_type, CmdType::Connect);
    assert_eq!(frames[0].get_meta("visitor_id").map(|s| s.clone()), Some("v1".to_string()));
}

#[test]
fn worker_relay_wraps_bytes_and_ends_on_eof() {
    let t = worker_relay_frame(vec![1, 2], "v1".to_string(), "L".to_string()).unwrap();
    assert_eq!(t.cmd_type, CmdType::Transfer);
    assert_eq!(t.data, vec![1, 2]);
    assert!(worker_relay_frame(Vec::new(), "v1".to_string(), "L".to_string()).is_none());
}

#[test]
fn queue_bounded_fifo_never_drops() {
    let mut q = OutboundQueue::new(2);
    let a = build_auth_message("a");
    let b = build_auth_message("b");
    let c = build_auth_message("c");
    assert!(q.try_enqueue(a).is_none());
    assert!(q.try_enqueue(b).is_none());
    // at capacity: the frame is handed back, not dropped
    let refused = q.try_enqueue(c).expect("expected the frame back");
    assert_eq!(refused.get_meta("auth_password").map(|s| s.clone()), Some("c".to_string()));
    // FIFO: frames leave in enqueue order
    let first = q.dequeue().unwrap();
    assert_eq!(first.get_meta("auth_password").map(|s| s.clone()), Some("a".to_string()));
    // a slot opened: the refused frame can now be enqueued
    assert!(q.try_enqueue(refused).is_none());
    let second = q.dequeue().unwrap();
    assert_eq!(second.get_meta("auth_password").map(|s| s.clone()), Some("b".to_string()));
    let third = q.dequeue().unwrap();
    assert_eq!(third.get_meta("auth_password").map(|s| s.clone()), Some("c".to_string()));
    assert!(q.dequeue().is_none());
}

#[test]
fn queue_interleaving_preserves_each_producer_order() {
    let mut q = OutboundQueue::new(8);
    // two producers alternating on the shared queue
    assert!(q.try_enqueue(build_auth_message("p1-a")).is_none());
    assert!(q.try_enqueue(build_auth_message("p2-a")).is_none());
    assert!(q.try_enqueue(build_auth_message("p1-b")).is_none());
    assert!(q.try_enqueue(build_auth_message("p2-b")).is_none());
    let mut drained: Vec<String> = Vec::new();
    while let Some(m) = q.dequeue() {
        drained.push(m.get_meta("auth_password").unwrap().clone());
    }
    let p1: Vec<&String> = drained.iter().filter(|s| s.starts_with("p1")).collect();
    let p2: Vec<&String> = drained.iter().filter(|s| s.starts_with("p2")).collect();
    assert_eq!(p1, vec!["p1-a", "p1-b"]);
    assert_eq!(p2, vec!["p2-a", "p2-b"]);
}
