use back_ruban_led_connected::device::{
    pairing_pin_code, read_is_forwarded, ConnectAttempts, Device, DeviceAddress, Devices,
    DevicesFilters, PAIRING_PASSKEY,
};
use back_ruban_led_connected::http::origin_allowed;
use back_ruban_led_connected::keyed::KeyedList;
use back_ruban_led_connected::poller::PollerFlags;
use back_ruban_led_connected::scan::{Scan, ScanClock};
use back_ruban_led_connected::sessions::{DeviceSessions, ScanSessions};
use back_ruban_led_connected::stream::{
    device_stream_action, heartbeat_expired, scan_stream_action, ClientFrame, FrameAction,
};

fn addr(s: &str) -> DeviceAddress {
    DeviceAddress(s.to_string())
}

fn device(a: &str, connected: bool) -> Device<u32> {
    Device::from_reported(a.to_string(), Some(format!("dev {}", a)), Some(false), Some(connected), a.len() as u32)
}

#[test]
fn reported_device_fills_missing_values() {
    let d = Device::from_reported("AA".to_string(), None, None, None, 5u8);
    assert_eq!(d.link, 5);
    assert_eq!(d.name.0, "NA");
    assert_eq!(d.address.0, "AA");
    assert!(!d.paired);
    assert!(!d.connected);
    let d = Device::from_reported("BB".to_string(), Some("strip".to_string()), Some(true), Some(true), ());
    assert_eq!(d.name.0, "strip");
    assert!(d.paired && d.connected);
}

#[test]
fn device_list_filters() {
    let all = || vec![device("A", true), device("B", false), device("C", true)];
    let none = Devices::listed(all(), None);
    assert_eq!(none.device.len(), 3);
    let connected = Devices::listed(all(), Some(DevicesFilters { connected: true }));
    let names: Vec<String> = connected.device.iter().map(|d| d.address.0.clone()).collect();
    assert_eq!(names, vec!["A", "C"]);
    let unconnected = Devices::listed(all(), Some(DevicesFilters { connected: false }));
    assert!(unconnected.device.is_empty());
}

#[test]
fn find_gives_the_first_match() {
    let list = Devices { device: vec![device("A", false), device("B", true), device("B", false)] };
    let found = list.find(&addr("B")).unwrap();
    assert!(found.connected);
    let list = Devices { device: vec![device("A", false)] };
    assert!(list.find(&addr("Z")).is_none());
}

#[test]
fn connection_is_tried_at_most_twice() {
    let mut a = ConnectAttempts::new();
    let mut tries = 0;
    while a.should_try() {
        tries += 1;
        a.record(false);
    }
    assert_eq!(tries, 2);
    let mut a = ConnectAttempts::new();
    assert!(a.should_try());
    a.record(true);
    assert!(!a.should_try());
}

#[test]
fn short_reads_are_dropped() {
    assert!(!read_is_forwarded(0));
    assert!(!read_is_forwarded(1));
    assert!(read_is_forwarded(2));
}

#[test]
fn pairing_answers() {
    assert_eq!(pairing_pin_code(), "1234");
    assert_eq!(PAIRING_PASSKEY, 1234);
}

#[test]
fn keyed_list_behaves_as_a_map() {
    let mut l: KeyedList<DeviceAddress, &str> = KeyedList::new();
    assert_eq!(l.insert(addr("A"), "one"), None);
    assert_eq!(l.insert(addr("B"), "two"), None);
    assert_eq!(l.insert(addr("A"), "uno"), Some("one"));
    assert_eq!(l.len(), 2);
    assert_eq!(l.get(&addr("A")), Some(&"uno"));
    assert!(l.contains_key(&addr("B")));
    assert_eq!(l.remove(&addr("A")), Some("uno"));
    assert_eq!(l.remove(&addr("A")), None);
    assert_eq!(l.get(&addr("A")), None);
    assert_eq!(l.len(), 1);
}

#[test]
fn device_sessions() {
    let mut s: DeviceSessions<&str> = DeviceSessions::new();
    s.join(addr("AA"), 1, "first");
    s.join(addr("AA"), 2, "second");
    s.join(addr("BB"), 3, "third");
    let mut to_aa: Vec<(usize, &str)> = s.recipients(&addr("AA"), 0).into_iter().map(|(k, v)| (*k, *v)).collect();
    to_aa.sort();
    assert_eq!(to_aa, vec![(1, "first"), (2, "second")]);
    let skip_one: Vec<usize> = s.recipients(&addr("AA"), 1).into_iter().map(|(k, _)| *k).collect();
    assert_eq!(skip_one, vec![2]);
    s.leave(&addr("AA"), 1);
    let left: Vec<usize> = s.recipients(&addr("AA"), 0).into_iter().map(|(k, _)| *k).collect();
    assert_eq!(left, vec![2]);
    s.leave(&addr("ZZ"), 9);
    assert!(s.recipients(&addr("ZZ"), 0).is_empty());
    let (id, command) = s.connect(addr("CC"), "fourth");
    assert_eq!(command, "connect CC");
    let ids: Vec<usize> = s.recipients(&addr("CC"), id.wrapping_add(1)).into_iter().map(|(k, _)| *k).collect();
    assert_eq!(ids, vec![id]);
}

#[test]
fn scan_sessions() {
    let mut s: ScanSessions<&str> = ScanSessions::new();
    s.join(10, "a");
    s.join(11, "b");
    assert_eq!(s.recipients(10).into_iter().map(|(k, _)| *k).collect::<Vec<_>>(), vec![11]);
    assert!(!s.leave(10));
    assert!(!s.leave(99));
    assert!(s.leave(11));
    let id = s.connect("c");
    assert_eq!(s.recipients(id.wrapping_add(1)).len(), 1);
}

#[test]
fn pollers_keep_a_single_active() {
    let mut p = PollerFlags::new();
    assert!(p.after_round(1));
    assert!(!p.after_round(2));
    assert!(p.after_round(1));
    p.stop_all();
    assert!(!p.after_round(1));
    // once withdrawn, a new poller may take over
    assert!(p.after_round(2));
    assert!(!p.after_round(3));
}

#[test]
fn scan_reports() {
    let clock = ScanClock::new();
    let s = clock.report(true, 30, 1000);
    assert!(s.starting);
    assert_eq!(s.started_time, None);
    assert_eq!(s.timeout, 30);
    let mut clock = ScanClock::new();
    let current = clock.report(false, 30, 1000);
    let (started, launch) = clock.start(false, current, 1000);
    assert!(launch);
    assert!(started.starting);
    assert_eq!(started.started_time, Some(1000));
    assert!(clock.report(true, 30, 1180).starting);
    assert!(!clock.report(true, 30, 1181).starting);
    assert!(!clock.report(false, 30, 1001).starting);
    let busy = Scan { starting: true, started_time: Some(1000), timeout: 30 };
    let (again, launch) = clock.start(true, busy, 1100);
    assert!(!launch);
    assert_eq!(again.started_time, Some(1000));
    assert_eq!(clock.started, Some(1000));
}

#[test]
fn frames_are_handled() {
    assert!(matches!(device_stream_action(ClientFrame::Ping), FrameAction::RefreshAndPong));
    assert!(matches!(device_stream_action(ClientFrame::Pong), FrameAction::Refresh));
    match device_stream_action(ClientFrame::Text("  red \n".to_string())) {
        FrameAction::Forward(t) => assert_eq!(t, "red"),
        _ => panic!("text should be forwarded"),
    }
    assert!(matches!(scan_stream_action(ClientFrame::Text("x".to_string())), FrameAction::Ignore));
    assert!(matches!(scan_stream_action(ClientFrame::Close), FrameAction::CloseAndStop));
    assert!(matches!(device_stream_action(ClientFrame::Other), FrameAction::Stop));
    assert!(matches!(device_stream_action(ClientFrame::Failed), FrameAction::Stop));
}

#[test]
fn heartbeat_expiry() {
    assert!(!heartbeat_expired(10_000_000_000));
    assert!(heartbeat_expired(10_000_000_001));
    assert!(!heartbeat_expired(0));
}

#[test]
fn local_origins_only() {
    assert!(origin_allowed(b"http://localhost"));
    assert!(origin_allowed(b"http://localhost:3000"));
    assert!(!origin_allowed(b"https://localhost"));
    assert!(!origin_allowed(b"http://local"));
    assert!(!origin_allowed(b"http://example.com"));
}

#[test]
fn scan_reported_now() {
    let s = ScanClock::new().report_now(true, 7).unwrap();
    assert!(s.starting);
    assert_eq!(s.started_time, None);
    assert_eq!(s.timeout, 7);
    match (ScanClock { started: Some(u64::MAX) }).report_now(true, 7) {
        Err(now) => assert!(now < u64::MAX),
        Ok(_) => panic!("a clock reading before the start is refused"),
    }
    let s = (ScanClock { started: Some(0) }).report_now(true, 7).unwrap();
    assert!(!s.starting);
}

#[test]
fn scan_report_for_a_reading() {
    let clock = ScanClock { started: Some(100) };
    assert_eq!(clock.report_at_time(true, 9, 50).err(), Some(50));
    let s = clock.report_at_time(true, 9, 100).unwrap();
    assert!(s.starting);
    assert_eq!(s.started_time, Some(100));
    assert!(!clock.report_at_time(true, 9, 281).unwrap().starting);
    let s = ScanClock::new().report_at_time(false, 9, 0).unwrap();
    assert!(!s.starting);
    assert_eq!(s.started_time, None);
}
