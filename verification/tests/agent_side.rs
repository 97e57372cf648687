use convwatcher::agent::runner::{sanitize_ext, substitute_paths, tail, temp_paths};
use convwatcher::agent::{agent_action, registration_outcome, AgentAction, RegisterOutcome};
use convwatcher::common::discovery::{coordinator_address, reply_to_datagram};
use convwatcher::common::protocol::Message;

#[test]
fn temp_files_use_sanitized_extension() {
    assert_eq!(sanitize_ext(".mp4"), "mp4");
    assert_eq!(sanitize_ext("../../etc/passwd"), "bin");
    assert_eq!(sanitize_ext(""), "bin");
    assert_eq!(sanitize_ext("abcdefghijklmnopq"), "bin");
    let (i, o) = temp_paths("/tmp/cw", 42, "..mkv");
    assert_eq!(i, "/tmp/cw/cw-42-in.tmp");
    assert_eq!(o, "/tmp/cw/cw-42-out.mkv");
}

#[test]
fn placeholders_are_replaced_whole() {
    let args = vec!["-i".to_string(), "{INPUT}".to_string(), "x{INPUT}".to_string(), "{OUTPUT}".to_string()];
    assert_eq!(substitute_paths(args, "/a", "/b"), vec!["-i", "/a", "x{INPUT}", "/b"]);
}

#[test]
fn tail_keeps_last_bytes() {
    assert_eq!(tail("abcdef", 10), "abcdef");
    assert_eq!(tail("abcdef", 2), "ef");
}

#[test]
fn agent_message_handling() {
    assert_eq!(agent_action(&Message::Heartbeat), AgentAction::Heartbeat);
    assert_eq!(agent_action(&Message::Bye), AgentAction::Stop);
    assert_eq!(agent_action(&Message::JobAbort { job_id: 7 }), AgentAction::IgnoreAbort(7));
    match registration_outcome(&Message::RegisterReject { reason: "invalid secret".into() }) {
        RegisterOutcome::Rejected(r) => assert_eq!(r, "invalid secret"),
        _ => panic!("rejection expected"),
    }
}

#[test]
fn discovery_replies_to_beacons_only() {
    let reply = reply_to_datagram(&Message::Beacon { agent_id: "a".into() }, "10.0.0.1", 8688);
    match reply {
        Some(Message::BeaconAck { tcp_addr, tcp_port }) => {
            assert_eq!(tcp_addr, "10.0.0.1");
            assert_eq!(tcp_port, 8688);
            let addr = coordinator_address(&Message::BeaconAck { tcp_addr, tcp_port }).unwrap();
            assert_eq!(addr, "10.0.0.1:8688");
        }
        _ => panic!("beacon must be answered"),
    }
    assert!(reply_to_datagram(&Message::Heartbeat, "x", 1).is_none());
}
