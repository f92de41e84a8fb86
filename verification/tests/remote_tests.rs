use sfx_board::models::project::ProjectSettings;
use sfx_board::models::recording::RecordingStatus;
use sfx_board::recording::engine::RecordingEngine;
use sfx_board::remote::request::{parse_request_head, query_grants_token};
use sfx_board::remote::{
    find_header_end, head_read_step, is_lan_or_loopback, parse_remote_command, remote_app_js,
    remote_css, remote_html, route_request, snapshot_state, EventStreamState, HeadStep,
    PeerAddress, RemoteAction, RemoteControlManager, RemoteRoute, StreamStep, KEEPALIVE_FRAME,
    MAX_HEAD_BYTES,
};
use sfx_board::timeline::playback::{PlaybackEngine, PlaybackStatus};
use sfx_board::timeline::state::TimelineState;

#[test]
fn header_end_is_the_first_blank_line() {
    assert_eq!(find_header_end(b"GET / HTTP/1.1\r\nHost: x\r\n\r\nbody"), Some(23));
    assert_eq!(find_header_end(b"\r\n\r\n\r\n\r\n"), Some(0));
    assert_eq!(find_header_end(b"GET / HTTP/1.1\r\n"), None);
    assert_eq!(find_header_end(b"\r\n"), None);
    assert_eq!(find_header_end(b""), None);
}

#[test]
fn head_reading_steps() {
    assert!(matches!(head_read_step(b"GET", 0), HeadStep::Failed(ref m) if m == "invalid request"));
    assert!(matches!(head_read_step(b"GET / HTTP/1.1\r\n\r\n", 5), HeadStep::Complete(14)));
    assert!(matches!(head_read_step(b"GET / HTTP/1.1\r\n", 5), HeadStep::ReadMore));
    let big = vec![b'a'; MAX_HEAD_BYTES + 1];
    assert!(
        matches!(head_read_step(&big, 10), HeadStep::Failed(ref m) if m == "request headers too large")
    );
    let limit = vec![b'a'; MAX_HEAD_BYTES];
    assert!(matches!(head_read_step(&limit, 10), HeadStep::ReadMore));
}

#[test]
fn request_head_is_parsed() {
    let h = parse_request_head(
        b"POST /api/command?token=abc&x=1 HTTP/1.1\r\nHost: phone\r\ncontent-LENGTH:  12 \r\n",
    )
    .unwrap();
    assert_eq!(h.method, "POST");
    assert_eq!(h.path, "/api/command");
    assert_eq!(h.query, "token=abc&x=1");
    assert_eq!(h.content_length, 12);
    let plain = parse_request_head(b"GET / HTTP/1.1").unwrap();
    assert_eq!(plain.path, "/");
    assert_eq!(plain.query, "");
    assert_eq!(plain.content_length, 0);
    let bad_length = parse_request_head(b"GET / HTTP/1.1\r\nContent-Length: ten\r\n").unwrap();
    assert_eq!(bad_length.content_length, 0);
}

#[test]
fn request_head_errors() {
    assert_eq!(parse_request_head(b"").err().unwrap(), "missing request line");
    assert_eq!(parse_request_head(b"   \r\nHost: x").err().unwrap(), "missing method");
    assert_eq!(parse_request_head(b"GET\r\n").err().unwrap(), "missing request target");
}

#[test]
fn token_must_match_exactly() {
    assert!(query_grants_token("a=1&token=xyz", "xyz"));
    assert!(!query_grants_token("token=xy", "xyz"));
    assert!(!query_grants_token("tokenxyz", "xyz"));
    assert!(!query_grants_token("", "xyz"));
    assert!(query_grants_token("token=a=b", "a=b"));
}

#[test]
fn requests_are_routed() {
    assert_eq!(route_request(false, "GET", "/", true), RemoteRoute::Forbidden);
    assert_eq!(route_request(true, "POST", "/", false), RemoteRoute::Page);
    assert_eq!(route_request(true, "GET", "/favicon.ico", false), RemoteRoute::Favicon);
    assert_eq!(route_request(true, "GET", "/remote/styles.css", false), RemoteRoute::StyleSheet);
    assert_eq!(route_request(true, "GET", "/remote/app.js", false), RemoteRoute::Script);
    assert_eq!(route_request(true, "GET", "/api/state", false), RemoteRoute::Unauthorized);
    assert_eq!(route_request(true, "GET", "/api/state", true), RemoteRoute::StateSnapshot);
    assert_eq!(route_request(true, "GET", "/api/events", true), RemoteRoute::EventStream);
    assert_eq!(route_request(true, "POST", "/api/command", true), RemoteRoute::Command);
    assert_eq!(route_request(true, "GET", "/api/command", true), RemoteRoute::NotFound);
    assert_eq!(route_request(true, "GET", "/nope", true), RemoteRoute::NotFound);
}

#[test]
fn remote_commands_are_read() {
    assert!(matches!(
        parse_remote_command("trigger_slot", Some("s1".to_string())),
        Ok(RemoteAction::TriggerSlot(ref id)) if id == "s1"
    ));
    assert_eq!(
        parse_remote_command("trigger_slot", None).err().unwrap(),
        "slotId is required for trigger_slot"
    );
    assert!(matches!(parse_remote_command("stop_all_audio", None), Ok(RemoteAction::StopAllAudio)));
    assert_eq!(
        parse_remote_command("dance", None).err().unwrap(),
        "unsupported command kind: dance"
    );
}

#[test]
fn only_local_peers_are_served() {
    assert!(is_lan_or_loopback(&PeerAddress::V4([192, 168, 1, 20])));
    assert!(is_lan_or_loopback(&PeerAddress::V4([10, 0, 0, 1])));
    assert!(is_lan_or_loopback(&PeerAddress::V4([172, 16, 0, 1])));
    assert!(is_lan_or_loopback(&PeerAddress::V4([172, 31, 255, 1])));
    assert!(!is_lan_or_loopback(&PeerAddress::V4([172, 32, 0, 1])));
    assert!(is_lan_or_loopback(&PeerAddress::V4([127, 0, 0, 1])));
    assert!(is_lan_or_loopback(&PeerAddress::V4([169, 254, 3, 3])));
    assert!(!is_lan_or_loopback(&PeerAddress::V4([8, 8, 8, 8])));
    assert!(is_lan_or_loopback(&PeerAddress::V6([0, 0, 0, 0, 0, 0, 0, 1])));
    assert!(is_lan_or_loopback(&PeerAddress::V6([0xfd12, 0, 0, 0, 0, 0, 0, 1])));
    assert!(is_lan_or_loopback(&PeerAddress::V6([0xfe80, 0, 0, 0, 0, 0, 0, 1])));
    assert!(!is_lan_or_loopback(&PeerAddress::V6([0x2001, 0xdb8, 0, 0, 0, 0, 0, 1])));
}

#[test]
fn event_stream_sends_changes_and_keepalives() {
    let mut s = EventStreamState::new();
    match s.next_step("{\"a\":1}".to_string()) {
        StreamStep::SendState(frame) => assert_eq!(frame, "event: state\ndata: {\"a\":1}\n\n"),
        _ => panic!("expected a state frame"),
    }
    for _ in 0..19 {
        assert!(matches!(s.next_step("{\"a\":1}".to_string()), StreamStep::Wait));
    }
    assert!(matches!(s.next_step("{\"a\":1}".to_string()), StreamStep::SendKeepalive));
    assert!(matches!(s.next_step("{\"a\":1}".to_string()), StreamStep::Wait));
    assert!(matches!(s.next_step("{\"a\":2}".to_string()), StreamStep::SendState(_)));
    assert_eq!(KEEPALIVE_FRAME, ": keepalive\n\n");
}

#[test]
fn manager_reports_its_url() {
    let mut m = RemoteControlManager::new();
    assert!(!m.is_running());
    let idle = m.status("192.168.1.5");
    assert!(!idle.running && idle.port.is_none() && idle.token.is_none() && idle.url.is_none());
    m.mark_started(8080, "tok".to_string());
    assert!(m.is_running());
    let s = m.status("192.168.1.5");
    assert!(s.running);
    assert_eq!(s.port, Some(8080));
    assert_eq!(s.token.as_deref(), Some("tok"));
    assert_eq!(s.url.as_deref(), Some("http://192.168.1.5:8080/?token=tok"));
    let stopped = m.stop("192.168.1.5");
    assert!(!stopped.running && stopped.url.is_none());
    assert!(!m.is_running());
}

#[test]
fn remote_page_assets() {
    assert!(remote_html().starts_with("<!doctype html>"));
    assert!(remote_html().contains("/remote/app.js"));
    assert!(!remote_css().is_empty());
    assert!(remote_app_js().contains("/api/command"));
}

#[test]
fn snapshot_copies_the_board() {
    let mut t = TimelineState::default();
    t.set_playhead_position(1234);
    let p = PlaybackEngine::new();
    let r = RecordingEngine::new();
    let settings = ProjectSettings::default();
    let snap = snapshot_state(&vec![], &t, &p, &r, &settings, &"Show".to_string());
    assert_eq!(snap.project_name, "Show");
    assert_eq!(snap.playhead_us, 1234);
    assert_eq!(snap.playback_status, PlaybackStatus::Stopped);
    assert_eq!(snap.recording_status, RecordingStatus::Idle);
    assert_eq!((snap.board_rows, snap.board_columns), (5, 5));
    assert!(snap.slots.is_empty() && snap.timeline_events.is_empty());
}
