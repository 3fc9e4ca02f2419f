use back_ruban_led_connected::command::{
    connect_command, parse_command, parse_device_line, route_command, send_command,
    try_parse_command, try_parse_device_line, ManagerAction, ManagerCommand,
};
use back_ruban_led_connected::device::{ConnectedDevices, DeviceAddress};
use back_ruban_led_connected::keyed::KeyedList;
use back_ruban_led_connected::text::{
    chars_of, find_word, is_whitespace, remove_every, starts_with, string_of, trim,
};

fn addr(s: &str) -> DeviceAddress {
    DeviceAddress(s.to_string())
}

#[test]
fn trim_removes_surrounding_whitespace() {
    assert_eq!(trim("  hi there \n"), "hi there");
    assert_eq!(trim("\t\r\n "), "");
    assert_eq!(trim(""), "");
    assert_eq!(trim("\u{3000}wide\u{00A0}"), "wide");
    assert_eq!(trim("no-space"), "no-space");
}

#[test]
fn trim_matches_std() {
    for s in ["  a b  ", "\u{2028}x\u{85}", "x", "  ", "\u{200B}x"] {
        assert_eq!(trim(s), s.trim());
    }
}

#[test]
fn whitespace_matches_std() {
    for c in ['\t', '\n', '\u{B}', '\u{C}', '\r', ' ', '\u{85}', '\u{A0}', '\u{1680}', '\u{2000}', '\u{200A}', '\u{2028}', '\u{2029}', '\u{202F}', '\u{205F}', '\u{3000}', 'a', '\u{200B}', '\u{1F}', '\u{180E}'] {
        assert_eq!(is_whitespace(c), c.is_whitespace(), "char {:?}", c);
    }
}

#[test]
fn text_helpers() {
    let v = chars_of("héllo wörld");
    assert_eq!(v.len(), 11);
    assert!(starts_with(&v, &chars_of("hé")));
    assert!(!starts_with(&v, &chars_of("hello")));
    assert_eq!(find_word(&v, 0), Some((0, 5)));
    assert_eq!(find_word(&v, 5), Some((6, 11)));
    assert_eq!(find_word(&v, 11), None);
    assert_eq!(string_of(&v, 6, 11), "wörld");
    let removed = remove_every(&chars_of("aXbXXc"), &chars_of("X"));
    assert_eq!(removed.iter().collect::<String>(), "abc");
    let removed = remove_every(&chars_of("aaa"), &chars_of("aa"));
    assert_eq!(removed.iter().collect::<String>(), "aaa".replace("aa", ""));
}

#[test]
fn commands_are_formatted() {
    assert_eq!(connect_command(&addr("AA:BB:CC:DD:EE:FF")), "connect AA:BB:CC:DD:EE:FF");
    assert_eq!(send_command(&addr("AA:BB"), "red"), "send AA:BB red");
    assert_eq!(send_command(&addr("AA:BB"), "two words"), "send AA:BB two words");
}

#[test]
fn connect_command_reads_back() {
    let line = connect_command(&addr("AA:BB:CC:DD:EE:FF"));
    match parse_command(&line) {
        ManagerCommand::Connect(a) => assert_eq!(a.0, "AA:BB:CC:DD:EE:FF"),
        _ => panic!("not a connect command"),
    }
}

#[test]
fn send_command_reads_back() {
    let line = send_command(&addr("AA:BB"), "blue");
    match parse_command(&line) {
        ManagerCommand::Send(a, m) => {
            assert_eq!(a.0, "AA:BB");
            assert_eq!(m, "blue");
        },
        _ => panic!("not a send command"),
    }
}

#[test]
fn send_keeps_only_the_first_word_of_the_message() {
    match parse_command("send AA:BB hello world") {
        ManagerCommand::Send(a, m) => {
            assert_eq!(a.0, "AA:BB");
            assert_eq!(m, "hello");
        },
        _ => panic!("not a send command"),
    }
}

#[test]
fn every_occurrence_of_the_head_is_removed() {
    match parse_command("connect connect X") {
        ManagerCommand::Connect(a) => assert_eq!(a.0, "X"),
        _ => panic!("not a connect command"),
    }
    match parse_command("send AA resend x") {
        ManagerCommand::Send(a, m) => {
            assert_eq!(a.0, "AA");
            assert_eq!(m, "rex");
        },
        _ => panic!("not a send command"),
    }
}

#[test]
fn other_lines_are_not_commands() {
    assert!(matches!(parse_command("hello"), ManagerCommand::Unrecognized));
    assert!(matches!(parse_command("connect"), ManagerCommand::Unrecognized));
    assert!(matches!(parse_command("sendAA x"), ManagerCommand::Unrecognized));
    assert!(matches!(parse_command(""), ManagerCommand::Unrecognized));
}

#[test]
fn incomplete_send_is_refused() {
    assert!(try_parse_command("send AA").is_none());
    assert!(try_parse_command("send    ").is_none());
    assert!(try_parse_command("send AA x").is_some());
    assert!(try_parse_command("whatever").is_some());
}

#[test]
fn routing_follows_the_connected_devices() {
    let mut connected: ConnectedDevices<u8> = KeyedList::new();
    match route_command(&connected, "connect AA") {
        ManagerAction::ConnectDevice(a) => assert_eq!(a.0, "AA"),
        _ => panic!("expected a connection"),
    }
    assert!(matches!(route_command(&connected, "send AA red"), ManagerAction::Skip));
    connected.insert(addr("AA"), 7);
    assert!(matches!(route_command(&connected, "connect AA"), ManagerAction::Skip));
    match route_command(&connected, "send AA red") {
        ManagerAction::Deliver(a, m) => {
            assert_eq!(a.0, "AA");
            assert_eq!(m, "red");
        },
        _ => panic!("expected a delivery"),
    }
    assert!(matches!(route_command(&connected, "noise"), ManagerAction::Skip));
}

#[test]
fn device_lines_are_read() {
    let (a, m) = parse_device_line("AA:BB ok");
    assert_eq!(a.0, "AA:BB");
    assert_eq!(m, "ok");
    let (a, m) = parse_device_line("  AA  ok  extra");
    assert_eq!(a.0, "AA");
    assert_eq!(m, "ok");
    assert!(try_parse_device_line("AA").is_none());
    assert!(try_parse_device_line("").is_none());
}
