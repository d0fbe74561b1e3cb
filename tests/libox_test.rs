use libox::addr::SockAddr;
use libox::connections::{self, ConnectionMap};
use libox::modbus::{filler_len, respond, RespondError};
use libox::network::{dump, push, DumpFormat, Packet, PacketLog, PushOutcome};
use libox::text::bytes_to_string;
use libox::utils::{read_result, write_result, Boolean, Utf8NameError};
use libox::wrappers::{on_connect, on_recv, on_send, RecvError};

fn local(port: u16) -> SockAddr {
    SockAddr::V4 { octets: [127, 0, 0, 1], port }
}

fn read_coils_request(tid: u16, unit: u8, address: u16, count: u16) -> Vec<u8> {
    vec![
        (tid >> 8) as u8,
        tid as u8,
        0,
        0,
        0,
        6,
        unit,
        1,
        (address >> 8) as u8,
        address as u8,
        (count >> 8) as u8,
        count as u8,
    ]
}

#[test]
fn read_name_error() {
    let e = Utf8NameError::Malformed(String::from("aMalformedModName"));
    println!("utf8 parse failed with: {:?}", e);
}

#[test]
fn v4_address_text() {
    assert_eq!(local(502).to_string(), "127.0.0.1:502");
    let a = SockAddr::V4 { octets: [10, 200, 3, 255], port: 0 };
    assert_eq!(a.to_string(), "10.200.3.255:0");
}

#[test]
fn v6_address_text() {
    let lo = SockAddr::V6 { ip: [0, 0, 0, 0, 0, 0, 0, 1], port: 502, flowinfo: 0, scope_id: 0 };
    assert_eq!(lo.to_string(), "[::1]:502");
    let doc = SockAddr::V6 { ip: [0x2001, 0xdb8, 0, 0, 1, 0, 0, 1], port: 80, flowinfo: 0, scope_id: 0 };
    assert_eq!(doc.to_string(), "[2001:db8::1:0:0:1]:80");
    let scoped = SockAddr::V6 { ip: [0xfe80, 0, 0, 0, 0, 0, 0, 0xab], port: 8080, flowinfo: 7, scope_id: 3 };
    assert_eq!(scoped.to_string(), "[fe80::ab%3]:8080");
    let mapped = SockAddr::V6 { ip: [0, 0, 0, 0, 0, 0xffff, 0xc0a8, 0x0001], port: 1, flowinfo: 0, scope_id: 0 };
    assert_eq!(mapped.to_string(), "[::ffff:192.168.0.1]:1");
    let single_zero = SockAddr::V6 { ip: [1, 0, 2, 3, 4, 5, 6, 7], port: 9, flowinfo: 0, scope_id: 0 };
    assert_eq!(single_zero.to_string(), "[1:0:2:3:4:5:6:7]:9");
    let unspecified = SockAddr::V6 { ip: [0; 8], port: 5, flowinfo: 0, scope_id: 0 };
    assert_eq!(unspecified.to_string(), "[::]:5");
}

#[test]
fn payload_text() {
    assert_eq!(bytes_to_string(&[]), "[]");
    assert_eq!(bytes_to_string(&[1, 20, 255]), "[1, 20, 255]");
}

#[test]
fn write_single_coil_echoes_address_and_value() {
    let request = vec![0x12, 0x34, 0, 0, 0, 6, 7, 5, 0, 5, 0xff, 0];
    let first = respond(request.clone(), vec![]).unwrap();
    let second = respond(request.clone(), vec![9, 9, 9]).unwrap();
    assert_eq!(first, request);
    assert_eq!(first, second);
}

#[test]
fn write_single_coil_off() {
    let request = vec![0, 9, 0, 0, 0, 6, 1, 5, 0x01, 0x02, 0, 0];
    assert_eq!(respond(request.clone(), vec![]).unwrap(), request);
}

#[test]
fn write_single_coil_bad_value_is_a_decode_error() {
    let request = vec![0, 9, 0, 0, 0, 6, 1, 5, 0x01, 0x02, 0x12, 0x34];
    assert_eq!(
        respond(request, vec![]),
        Err(RespondError::Decode(modbus_core::Error::CoilValue(0x1234)))
    );
}

#[test]
fn read_zero_coils() {
    let out = respond(read_coils_request(1, 1, 0, 0), vec![0xff]).unwrap();
    assert_eq!(out, vec![0, 1, 0, 0, 0, 3, 1, 1, 0]);
}

#[test]
fn read_three_coils_masks_unused_bits() {
    let out = respond(read_coils_request(1, 1, 0, 3), vec![0xff]).unwrap();
    assert_eq!(out, vec![0, 1, 0, 0, 0, 4, 1, 1, 1, 0x07]);
}

#[test]
fn read_coils_block_length_ignores_filler_length() {
    let request = read_coils_request(0x0203, 4, 0x10, 10);
    let short = respond(request.clone(), vec![]).unwrap();
    let exact = respond(request.clone(), vec![0xab, 0xcd]).unwrap();
    let long = respond(request.clone(), vec![0xab, 0xcd, 0xef, 0x01]).unwrap();
    assert_eq!(short, vec![2, 3, 0, 0, 0, 5, 4, 1, 2, 0, 0]);
    assert_eq!(exact, vec![2, 3, 0, 0, 0, 5, 4, 1, 2, 0xab, 0x01]);
    assert_eq!(long, exact);
}

#[test]
fn read_coils_largest_block_that_fits() {
    let out = respond(read_coils_request(0, 0, 0, 247 * 8), vec![0x5a; 247]).unwrap();
    assert_eq!(out.len(), 9 + 247);
    assert_eq!(out[8], 247);
    assert!(out[9..].iter().all(|b| *b == 0x5a));
}

#[test]
fn read_coils_too_many_for_the_buffer() {
    let r = respond(read_coils_request(0, 0, 0, 2000), vec![]);
    assert_eq!(r, Err(RespondError::Encode(modbus_core::Error::BufferSize)));
    let r = respond(read_coils_request(0, 0, 0, 0xffff), vec![]);
    assert_eq!(r, Err(RespondError::Encode(modbus_core::Error::BufferSize)));
}

#[test]
fn unsupported_request() {
    let request = vec![0, 1, 0, 0, 0, 6, 1, 3, 0, 0, 0, 1];
    assert_eq!(respond(request, vec![]), Err(RespondError::Unsupported));
}

#[test]
fn incomplete_request() {
    assert_eq!(respond(vec![0, 1, 0], vec![]), Err(RespondError::Incomplete));
    assert_eq!(respond(vec![], vec![]), Err(RespondError::Incomplete));
    assert_eq!(respond(vec![0, 1, 0, 0, 0, 2, 1], vec![]), Err(RespondError::Incomplete));
}

#[test]
fn cut_frame_is_malformed() {
    let cut = vec![0, 1, 0, 0, 0, 6, 1, 1, 0, 0, 0];
    assert_eq!(respond(cut, vec![]), Err(RespondError::Malformed));
}

#[test]
fn frames_that_would_send_the_decoder_past_the_end() {
    let eleven = vec![0, 0, 0, 0, 0, 0, 0, 0x0f, 0, 0, 0];
    assert_eq!(respond(eleven, vec![]), Err(RespondError::Malformed));
    let bad_protocol = vec![0, 0, 0, 1, 0, 6, 0, 1, 0x0f, 0, 0, 0];
    assert_eq!(respond(bad_protocol, vec![]), Err(RespondError::Malformed));
    let twelve = vec![0, 0, 0, 0, 0, 6, 0, 0x10, 0x0f, 0x10, 0, 0];
    assert_eq!(respond(twelve, vec![]), Err(RespondError::Unsupported));
}

#[test]
fn malformed_headers() {
    let bad_length = vec![0, 1, 0, 0, 0, 7, 1, 1, 0, 0, 0, 3];
    assert_eq!(respond(bad_length, vec![]), Err(RespondError::Malformed));
    let trailing = vec![0, 1, 0, 0, 0, 7, 1, 1, 0, 0, 0, 3, 9];
    assert_eq!(respond(trailing, vec![]), Err(RespondError::Malformed));
    let two_frames = [read_coils_request(1, 1, 0, 3), read_coils_request(2, 1, 0, 3)].concat();
    assert_eq!(respond(two_frames, vec![]), Err(RespondError::Malformed));
}

#[test]
fn other_function_codes_are_unsupported() {
    let custom = vec![0, 1, 0, 0, 0, 2, 1, 0x42];
    assert_eq!(respond(custom, vec![]), Err(RespondError::Unsupported));
    let write_multiple = vec![0, 1, 0, 0, 0, 8, 1, 0x0f, 0, 0, 0, 8, 1, 0xff];
    assert_eq!(respond(write_multiple, vec![]), Err(RespondError::Unsupported));
}

#[test]
fn filler_needed_only_for_read_coils() {
    assert_eq!(filler_len(&read_coils_request(1, 1, 0, 10)), Some(2));
    assert_eq!(filler_len(&read_coils_request(1, 1, 0, 0)), Some(0));
    assert_eq!(filler_len(&[0, 1, 0, 0, 0, 6, 1, 5, 0, 5, 0xff, 0]), None);
    assert_eq!(filler_len(&[0, 1, 0]), None);
}

#[test]
fn magic_packet_triggers_termination() {
    let mut log = PacketLog::new();
    let r = push(&mut log, Packet::inbound(local(502), vec![87, 111, 114, 108, 100]));
    assert_eq!(r, PushOutcome::Terminate);
    assert_eq!(log.len(), 1);
    assert_eq!(log.get(0).to_csv(), "127.0.0.1:502,self,[87, 111, 114, 108, 100]\n");
}

#[test]
fn other_packets_do_not_trigger() {
    let mut log = PacketLog::new();
    assert_eq!(push(&mut log, Packet::outbound(local(1), vec![87, 111, 114, 108, 100])), PushOutcome::Stored);
    assert_eq!(push(&mut log, Packet::inbound(local(1), vec![87, 111, 114, 108])), PushOutcome::Stored);
    assert_eq!(push(&mut log, Packet::inbound(local(1), vec![87, 111, 114, 108, 100, 0])), PushOutcome::Stored);
    assert_eq!(push(&mut log, Packet::inbound(local(1), vec![])), PushOutcome::Stored);
    assert_eq!(log.len(), 4);
}

#[test]
fn packet_lines() {
    let i = Packet::inbound(local(502), vec![1, 2]);
    let o = Packet::outbound(local(502), vec![3]);
    assert_eq!(i.to_csv(), "127.0.0.1:502,self,[1, 2]\n");
    assert_eq!(o.to_csv(), "self,127.0.0.1:502,[3]\n");
    assert_eq!(i.to_string(), "127.0.0.1:502 -> self [1, 2]\n");
    assert_eq!(o.to_string(), "self -> 127.0.0.1:502 [3]\n");
}

#[test]
fn dump_empty_log() {
    let log = PacketLog::new();
    assert_eq!(dump(&log, DumpFormat::CSV, false), "src,dst,payload\n");
    assert_eq!(dump(&log, DumpFormat::HumanReadable, false), "");
    assert_eq!(dump(&log, DumpFormat::CSV, true), "");
}

#[test]
fn dump_twice_duplicates_rows() {
    let mut log = PacketLog::new();
    push(&mut log, Packet::outbound(local(502), vec![1]));
    push(&mut log, Packet::inbound(local(502), vec![2]));
    let rows = "self,127.0.0.1:502,[1]\n127.0.0.1:502,self,[2]\n";
    let first = dump(&log, DumpFormat::CSV, false);
    let second = dump(&log, DumpFormat::CSV, true);
    assert_eq!(first, format!("src,dst,payload\n{rows}"));
    assert_eq!(second, rows);
    assert_eq!(log.len(), 2);
    let human = dump(&log, DumpFormat::HumanReadable, true);
    assert_eq!(human, "self -> 127.0.0.1:502 [1]\n127.0.0.1:502 -> self [2]\n");
}

#[test]
fn connect_registers_decoded_peer() {
    let mut conns = ConnectionMap::new();
    on_connect(&mut conns, 7, Some(local(502)));
    let c = connections::get(&conns, 7).unwrap();
    assert_eq!(c.addr, local(502));
    assert_eq!(c.pending_request, None);
    assert_eq!(c.to_string(), "127.0.0.1:502");
}

#[test]
fn connect_without_address_registers_nothing() {
    let mut conns = ConnectionMap::new();
    on_connect(&mut conns, 7, None);
    assert!(connections::get(&conns, 7).is_none());
}

#[test]
fn reconnect_overwrites_entry() {
    let mut conns = ConnectionMap::new();
    let mut log = PacketLog::new();
    connections::insert(&mut conns, 3, local(1));
    connections::record_request(&mut conns, &mut log, 3, vec![1, 2, 3]);
    connections::insert(&mut conns, 3, local(2));
    let c = connections::get(&conns, 3).unwrap();
    assert_eq!(c.addr, local(2));
    assert_eq!(c.pending_request, None);
}

#[test]
fn send_then_lookup() {
    let mut conns = ConnectionMap::new();
    let mut log = PacketLog::new();
    on_connect(&mut conns, 4, Some(local(502)));
    let payload = vec![0, 1, 0, 0, 0, 6, 1, 5, 0, 5, 0xff, 0];
    assert!(on_send(&mut conns, &mut log, 4, Some(payload.clone())));
    let c = connections::get(&conns, 4).unwrap();
    assert_eq!(c.pending_request, Some(payload));
    assert_eq!(log.len(), 1);
    assert_eq!(log.get(0).to_csv(), "self,127.0.0.1:502,[0, 1, 0, 0, 0, 6, 1, 5, 0, 5, 255, 0]\n");
}

#[test]
fn send_on_unconnected_socket_is_ignored() {
    let mut conns = ConnectionMap::new();
    let mut log = PacketLog::new();
    assert!(!on_send(&mut conns, &mut log, 4, Some(vec![1])));
    assert!(connections::get(&conns, 4).is_none());
    assert_eq!(log.len(), 0);
    on_connect(&mut conns, 4, Some(local(1)));
    assert!(!on_send(&mut conns, &mut log, 4, None));
    assert_eq!(connections::get(&conns, 4).unwrap().pending_request, None);
    assert_eq!(log.len(), 0);
}

#[test]
fn recv_answers_pending_request() {
    let mut conns = ConnectionMap::new();
    let mut log = PacketLog::new();
    on_connect(&mut conns, 4, Some(local(502)));
    let request = vec![0, 1, 0, 0, 0, 6, 1, 5, 0, 5, 0xff, 0];
    on_send(&mut conns, &mut log, 4, Some(request.clone()));
    let out = on_recv(&conns, 4, 64, vec![]).unwrap();
    assert_eq!(out, request);
    assert!(matches!(on_recv(&conns, 4, 11, vec![]), Err(RecvError::TooLarge(v)) if v == request));
    let outcome = connections::record_response(&conns, &mut log, 4, out);
    assert_eq!(outcome, PushOutcome::Stored);
    assert_eq!(log.len(), 2);
    assert_eq!(log.get(1).to_string(), "127.0.0.1:502 -> self [0, 1, 0, 0, 0, 6, 1, 5, 0, 5, 255, 0]\n");
}

#[test]
fn recv_without_request_or_connection() {
    let mut conns = ConnectionMap::new();
    assert!(matches!(on_recv(&conns, 4, 64, vec![]), Err(RecvError::NotConnected)));
    on_connect(&mut conns, 4, Some(local(502)));
    assert!(matches!(on_recv(&conns, 4, 64, vec![]), Err(RecvError::NoPendingRequest)));
}

#[test]
fn recv_unsupported_request() {
    let mut conns = ConnectionMap::new();
    let mut log = PacketLog::new();
    on_connect(&mut conns, 4, Some(local(502)));
    on_send(&mut conns, &mut log, 4, Some(vec![0, 1, 0, 0, 0, 6, 1, 6, 0, 0, 0, 1]));
    assert!(matches!(
        on_recv(&conns, 4, 64, vec![]),
        Err(RecvError::Respond(RespondError::Unsupported))
    ));
}

#[test]
fn record_response_with_magic_payload() {
    let mut conns = ConnectionMap::new();
    let mut log = PacketLog::new();
    connections::insert(&mut conns, 9, local(502));
    let r = connections::record_response(&conns, &mut log, 9, vec![87, 111, 114, 108, 100]);
    assert_eq!(r, PushOutcome::Terminate);
    assert_eq!(log.len(), 1);
}

#[test]
fn boundary_copy_results() {
    assert_eq!(read_result(3, true, 3, vec![1, 2, 3]).unwrap(), vec![1, 2, 3]);
    let e = read_result(3, false, 1, vec![1, 0, 0]).unwrap_err();
    assert_eq!((e.n_bytes_tried, e.n_bytes_read, e.buf), (3, 1, vec![1, 0, 0]));
    assert!(write_result(vec![1, 2], true, 2).is_ok());
    let e = write_result(vec![1, 2], false, 0).unwrap_err();
    assert_eq!((e.n_bytes_tried, e.n_bytes_written, e.data_tried), (2, 0, vec![1, 2]));
}

#[test]
fn c_booleans() {
    assert!(1i8.as_bool());
    assert!((-1i8).as_bool());
    assert!(!0i8.as_bool());
    assert!(255u8.as_bool());
    assert!(!0u8.as_bool());
}
