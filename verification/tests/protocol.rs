use lift::remote::payload::{rom_list_payload, server_url, switch_address};
use lift::remote::range::{parse_num, range_is_answered, resolve_range, ByteRange, RangeError};
use lift::usb::manager::{find_switch, uevent_action, DeviceAction, PortalTracker, UsbEventKind};
use lift::usb::protocol::{
    decode_command, file_response_command, response_header_messages, rom_list_messages, select_endpoints,
    Chunk, CommandError, EndpointInfo, FileHeader, MissingEndpoint, PollDecision, ProtocolCommand, TransferPlan,
};
use lift::utils::FileVecBuilder;

fn range(size: u64, header: Option<&str>) -> Result<ByteRange, RangeError> {
    resolve_range(size, header)
}

#[test]
fn whole_file_without_a_range_header() {
    assert_eq!(range(100, None), Ok(ByteRange { status: 200, start: 0, end: 99, size: 100, content_length: 100 }));
}

#[test]
fn ranges_are_answered_with_206() {
    assert_eq!(
        range(100, Some("[\"bytes=0-49\"]")),
        Ok(ByteRange { status: 206, start: 0, end: 49, size: 100, content_length: 50 })
    );
    assert_eq!(
        range(100, Some("[\"bytes=10-\"]")),
        Ok(ByteRange { status: 206, start: 10, end: 99, size: 100, content_length: 90 })
    );
    assert_eq!(
        range(100, Some("[\"bytes=10-5000\"]")),
        Ok(ByteRange { status: 206, start: 10, end: 99, size: 100, content_length: 90 })
    );
    // A suffix range `-n` starts n bytes before the end and ends at byte n.
    assert_eq!(
        range(100, Some("[\"bytes=-70\"]")),
        Ok(ByteRange { status: 206, start: 30, end: 70, size: 100, content_length: 41 })
    );
    assert_eq!(
        range(100, Some("[\"bytes=+5-6\"]")),
        Ok(ByteRange { status: 206, start: 5, end: 6, size: 100, content_length: 2 })
    );
    // Only the bracketed form that header values print in is understood.
    assert_eq!(range(100, Some("bytes=5-6")), Err(RangeError::InvalidValue));
}

#[test]
fn bad_ranges_are_refused() {
    assert_eq!(range(100, Some("[\"bytes=abc-5\"]")), Err(RangeError::InvalidValue));
    assert_eq!(range(100, Some("[\"bytes=5-x\"]")), Err(RangeError::InvalidValue));
    assert_eq!(range(100, Some("[\"bytes=-x\"]")), Err(RangeError::InvalidValue));
    assert_eq!(range(100, Some("[\"bytes=100-\"]")), Err(RangeError::NotSatisfiable));
    assert_eq!(RangeError::InvalidValue.status(), 400);
    assert_eq!(RangeError::NotSatisfiable.status(), 416);
    assert_eq!(RangeError::NotSatisfiable.message(), "Invalid range");
    assert_eq!(RangeError::InvalidValue.message(), "Invalid range: Failed to parse value");
}

#[test]
fn numbers_parse_as_u64_from_str_does() {
    assert_eq!(parse_num("42"), Ok(42));
    assert_eq!(parse_num("+7"), Ok(7));
    assert_eq!(parse_num("18446744073709551615"), Ok(u64::MAX));
    assert_eq!(parse_num("18446744073709551616"), Err(RangeError::InvalidValue));
    assert_eq!(parse_num(""), Err(RangeError::InvalidValue));
    assert_eq!(parse_num("+"), Err(RangeError::InvalidValue));
    assert_eq!(parse_num("-1"), Err(RangeError::InvalidValue));
    assert_eq!(parse_num(" 1"), Err(RangeError::InvalidValue));
    for s in ["0", "007", "123456", "+0"] {
        assert_eq!(parse_num(s).ok(), s.parse::<u64>().ok());
    }
}

#[test]
fn rom_list_is_announced_in_separate_writes() {
    let msgs = rom_list_messages(&vec!["a.nsp".to_string(), "éb.xci".to_string()]);
    assert_eq!(msgs.len(), 5);
    assert_eq!(msgs[0], b"TUL0".to_vec());
    assert_eq!(msgs[1], 14u32.to_le_bytes().to_vec());
    assert_eq!(msgs[2], vec![0u8; 8]);
    assert_eq!(msgs[3], b"a.nsp\n".to_vec());
    assert_eq!(msgs[4], "éb.xci\n".as_bytes().to_vec());
    let empty = rom_list_messages(&vec![]);
    assert_eq!(empty[1], vec![0, 0, 0, 0]);
}

fn header(magic: &[u8; 4], cmd: u32) -> Vec<u8> {
    let mut h = magic.to_vec();
    h.extend([1, 0, 0, 0]);
    h.extend(cmd.to_le_bytes());
    h.extend([0u8; 20]);
    h
}

#[test]
fn command_headers_decide_the_next_step() {
    assert_eq!(decode_command(&header(b"TUC0", 0)).unwrap(), PollDecision::Stop);
    assert_eq!(decode_command(&header(b"TUC0", 1)).unwrap(), PollDecision::SendFile(false));
    assert_eq!(decode_command(&header(b"TUC0", 2)).unwrap(), PollDecision::SendFile(true));
    assert_eq!(decode_command(&header(b"TUC0", 3)).unwrap(), PollDecision::Ignore);
    assert!(matches!(decode_command(&header(b"TUL0", 1)), Err(CommandError::InvalidMagic(m)) if m == "TUL0"));
    assert!(matches!(decode_command(&header(b"\xffUC0", 1)), Err(CommandError::Decoding(_))));
}

#[test]
fn commands_and_their_codes() {
    assert_eq!(ProtocolCommand::try_from(0), Ok(ProtocolCommand::Exit));
    assert_eq!(ProtocolCommand::try_from(1), Ok(ProtocolCommand::FileRange));
    assert_eq!(ProtocolCommand::try_from(2), Ok(ProtocolCommand::FileRangePadded));
    assert_eq!(ProtocolCommand::try_from(3), Err(()));
    assert_eq!(ProtocolCommand::Exit.code(), 1);
    assert_eq!(ProtocolCommand::FileRange.code(), 2);
    assert_eq!(ProtocolCommand::FileRangePadded.code(), 3);
    assert_eq!(file_response_command(true), ProtocolCommand::FileRangePadded);
    assert_eq!(file_response_command(false), ProtocolCommand::FileRange);
}

#[test]
fn file_requests_and_responses() {
    let mut b = Vec::new();
    b.extend(0x300000u64.to_le_bytes());
    b.extend(0x10u64.to_le_bytes());
    b.extend(5u64.to_le_bytes());
    b.extend([0u8; 8]);
    let mut h = FileHeader::parse(&b).unwrap();
    assert_eq!((h.range_size, h.range_offset, h.rom_name_length), (0x300000, 0x10, 5));
    assert!(h.set_name(b"a.nsp".to_vec()).is_ok());
    assert_eq!(h.name, "a.nsp");
    assert!(h.set_name(vec![0xff]).is_err());
    assert_eq!(h.name, "a.nsp");
    assert!(FileHeader::parse(&b[..23]).is_err());
    let r = response_header_messages(ProtocolCommand::FileRangePadded, 0x1122);
    assert_eq!(r, vec![
        b"TUC0".to_vec(),
        vec![1],
        vec![0, 0, 0],
        vec![3, 0, 0, 0],
        0x1122u64.to_le_bytes().to_vec(),
        vec![0u8; 12],
    ]);
}

#[test]
fn transfers_cover_the_range_in_segments() {
    let size = 0x100000 * 2 + 0x80000;
    let mut p = TransferPlan::new(size, false);
    let mut sizes = Vec::new();
    while let Some(c) = p.next_chunk(false) {
        assert_eq!(c.write_len, c.read_size);
        sizes.push(c.read_size);
    }
    assert_eq!(sizes, vec![0x100000, 0x100000, 0x80000]);
    assert_eq!(sizes.iter().sum::<u64>(), size);
    let mut padded = TransferPlan::new(10, true);
    assert_eq!(padded.next_chunk(false), Some(Chunk { read_size: 10, data_start: 0x1000, write_len: 0x100A }));
    assert_eq!(padded.next_chunk(false), None);
    let mut cancelled = TransferPlan::new(10, false);
    assert_eq!(cancelled.next_chunk(true), None);
    assert_eq!(cancelled.current_offset, 0);
    let mut exact = TransferPlan::new(0x100000, false);
    assert_eq!(exact.next_chunk(false).unwrap().read_size, 0x100000);
    assert_eq!(exact.next_chunk(false), None);
}

#[test]
fn endpoints_are_picked_from_the_configuration() {
    let eps = vec![
        EndpointInfo { interface_number: 0, address: 0x81 },
        EndpointInfo { interface_number: 0, address: 0x01 },
        EndpointInfo { interface_number: 1, address: 0x02 },
    ];
    assert_eq!(select_endpoints(&eps), Ok((0x81, 0x02, 1)));
    assert_eq!(select_endpoints(&eps[1..].to_vec()), Err(MissingEndpoint::In));
    assert_eq!(select_endpoints(&eps[..1].to_vec()), Err(MissingEndpoint::Out));
    assert_eq!(select_endpoints(&vec![]), Err(MissingEndpoint::In));
    assert_eq!(MissingEndpoint::In.name(), "IN");
    assert_eq!(MissingEndpoint::Out.name(), "OUT");
}

#[test]
fn the_console_is_the_last_nintendo_device() {
    let ids = vec![(0x057E, 0x3000), (0x1234, 0x3000), (0x057E, 0x3000), (0x057E, 0x2000)];
    assert_eq!(find_switch(&ids), Some(2));
    assert_eq!(find_switch(&vec![(1, 2)]), None);
}

#[test]
fn udev_events_of_the_console() {
    let n = Some("Nintendo Co., Ltd");
    let p = Some("57e/3000/100");
    assert_eq!(uevent_action(n, p, "add"), Some(DeviceAction::Add));
    assert_eq!(uevent_action(None, None, "remove"), Some(DeviceAction::Remove));
    assert_eq!(uevent_action(n, p, "bind"), None);
    assert_eq!(uevent_action(Some("Other"), p, "add"), None);
    assert_eq!(uevent_action(n, Some("1/2/3"), "add"), None);
}

#[test]
fn portal_events_follow_the_console() {
    let mut t = PortalTracker::new();
    assert_eq!(t.on_event(UsbEventKind::Remove, None, "dev1"), None);
    assert_eq!(t.on_event(UsbEventKind::Add, Some("Acme"), "dev0"), None);
    assert_eq!(t.on_event(UsbEventKind::Add, Some("Nintendo Co., Ltd"), "dev1"), Some(DeviceAction::Add));
    assert_eq!(t.switch_id.as_deref(), Some("dev1"));
    assert_eq!(t.on_event(UsbEventKind::Change, None, "dev1"), None);
    assert_eq!(t.on_event(UsbEventKind::Remove, None, "dev0"), None);
    assert_eq!(t.on_event(UsbEventKind::Remove, None, "dev1"), Some(DeviceAction::Remove));
}

#[test]
fn file_lists_for_the_network_install() {
    let b = FileVecBuilder::new().prefix("http://h/").suffix("?x").file("a".to_string()).file("b".to_string());
    assert_eq!(b.files, vec!["http://h/a?x\n".to_string(), "http://h/b?x\n".to_string()]);
    let lines = FileVecBuilder::new().file("é".to_string()).build();
    assert_eq!(lines, vec!["é\n".as_bytes().to_vec()]);
    let flat = FileVecBuilder::new().file("a".to_string()).file("bc".to_string()).flatten_build();
    assert_eq!(flat, b"a\nbc\n".to_vec());
    let net = FileVecBuilder::new().file("a".to_string()).file("bc".to_string()).build_net();
    assert_eq!(net, vec![0, 0, 0, 5, b'a', b'\n', b'b', b'c', b'\n']);
    let both = FileVecBuilder::new().file("x".to_string()).file("yz".to_string());
    let joined: Vec<u8> = FileVecBuilder { files: both.files.clone(), prefix: None, suffix: None }.build().concat();
    assert_eq!(joined, both.flatten_build());
}

#[test]
fn network_addresses_and_payload() {
    assert_eq!(switch_address("192.168.1.5"), "192.168.1.5:2000");
    assert_eq!(server_url("10.0.0.2"), "10.0.0.2:8080");
    let p = rom_list_payload("10.0.0.2:8080", &vec!["/r/a.nsp".to_string()]);
    let line = b"10.0.0.2:8080/file//r/a.nsp\n";
    let mut expected = (line.len() as u32).to_be_bytes().to_vec();
    expected.extend_from_slice(line);
    assert_eq!(p, expected);
}

#[test]
fn requests_the_server_fails_on_are_told_apart() {
    assert!(range_is_answered(10, None));
    assert!(!range_is_answered(0, None));
    assert!(range_is_answered(10, Some("[\"bytes=2-5\"]")));
    assert!(range_is_answered(10, Some("[\"bytes=x-5\"]")));
    assert!(range_is_answered(10, Some("[\"bytes=12-\"]")));
    assert!(!range_is_answered(10, Some("[\"bytes=-11\"]")));
    assert!(!range_is_answered(10, Some("[\"bytes=5\"]")));
    assert!(!range_is_answered(10, Some("[\"bytes=5-3\"]")));
    assert!(!range_is_answered(10, Some("[\"bytes=\"]")));
}
