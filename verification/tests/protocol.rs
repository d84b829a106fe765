use rak811_at_driver::Buffer;
use rak811_at_driver::Command;
use rak811_at_driver::ConfigOption;
use rak811_at_driver::ConnectMode;
use rak811_at_driver::EventCode;
use rak811_at_driver::LoraError;
use rak811_at_driver::LoraMode;
use rak811_at_driver::LoraRegion;
use rak811_at_driver::QoS;
use rak811_at_driver::Response;
use rak811_at_driver::RECV_BUFFER_LEN;

fn encoded(cmd: &Command) -> Vec<u8> {
    let mut out = Command::buffer();
    cmd.encode(&mut out).expect("command must fit");
    out
}

fn hex_nibble(c: u8) -> u8 {
    match c {
        b'0'..=b'9' => c - b'0',
        b'A'..=b'F' => c - b'A' + 10,
        _ => panic!("not an uppercase hex digit: {}", c),
    }
}

fn hex_decode(s: &[u8]) -> Vec<u8> {
    assert!(s.len() % 2 == 0);
    s.chunks(2).map(|p| hex_nibble(p[0]) * 16 + hex_nibble(p[1])).collect()
}

fn buffer_with(bytes: &[u8]) -> Buffer {
    let mut b = Buffer::new();
    for &x in bytes {
        b.write(x).expect("buffer must not overflow in this test");
    }
    b
}

#[test]
fn encode_set_band() {
    assert_eq!(encoded(&Command::SetBand(LoraRegion::EU868)), b"at+band=EU868");
    assert_eq!(encoded(&Command::SetBand(LoraRegion::US915)), b"at+band=US915");
    assert_eq!(encoded(&Command::SetBand(LoraRegion::IN865)), b"at+band=IN865");
}

#[test]
fn encode_set_mode() {
    assert_eq!(encoded(&Command::SetMode(LoraMode::WAN)), b"at+mode=0");
    assert_eq!(encoded(&Command::SetMode(LoraMode::P2P)), b"at+mode=1");
}

#[test]
fn encode_join() {
    assert_eq!(encoded(&Command::Join(ConnectMode::OTAA)), b"at+join=otaa");
    assert_eq!(encoded(&Command::Join(ConnectMode::ABP)), b"at+join=abp");
}

#[test]
fn encode_dev_eui_uppercase_with_leading_zeros() {
    let eui = [0x00, 0x11, 0x22, 0x33, 0xAA, 0xBB, 0xCC, 0xDD];
    assert_eq!(
        encoded(&Command::SetConfig(ConfigOption::DevEui(eui))),
        b"at+set_config=dev_eui:00112233AABBCCDD"
    );
    let zero = [0u8; 8];
    assert_eq!(
        encoded(&Command::SetConfig(ConfigOption::AppEui(zero))),
        b"at+set_config=app_eui:0000000000000000"
    );
}

#[test]
fn encode_app_key() {
    let key = [
        0x01, 0x02, 0x03, 0x04, 0x05, 0x06, 0x07, 0x08, 0x09, 0x0A, 0x0B, 0x0C, 0x0D, 0x0E,
        0x0F, 0x10,
    ];
    assert_eq!(
        encoded(&Command::SetConfig(ConfigOption::AppKey(key))),
        b"at+set_config=app_key:0102030405060708090A0B0C0D0E0F10"
    );
}

#[test]
fn encode_send() {
    assert_eq!(
        encoded(&Command::Send(QoS::Confirmed, 1, b"PING".to_vec())),
        b"at+send=1,1,50494E47"
    );
    assert_eq!(
        encoded(&Command::Send(QoS::Unconfirmed, 255, vec![])),
        b"at+send=0,255,"
    );
    assert_eq!(
        encoded(&Command::Send(QoS::Unconfirmed, 0, vec![0x00])),
        b"at+send=0,0,00"
    );
}

#[test]
fn encode_overflow_fails_and_leaves_buffer_untouched() {
    let mut out = Command::buffer();
    let big = vec![0xAB; 200];
    let r = Command::Send(QoS::Confirmed, 1, big).encode(&mut out);
    assert_eq!(r, Err(LoraError::EncodeError));
    assert!(out.is_empty());
}

#[test]
fn hex_round_trip_through_encoder_output() {
    let eui = [0x00, 0x01, 0xFE, 0x10, 0x80, 0x7F, 0x55, 0xAA];
    let wire = encoded(&Command::SetConfig(ConfigOption::DevEui(eui)));
    let text = &wire[b"at+set_config=dev_eui:".len()..];
    assert_eq!(text.len(), 16);
    assert_eq!(hex_decode(text), eui.to_vec());
}

#[test]
fn parse_ok_line() {
    let mut b = buffer_with(b"OK\r\n");
    assert_eq!(b.parse(), Ok(Response::Ack));
    assert_eq!(b.len(), 0);
}

#[test]
fn parse_error_lines() {
    let mut b = buffer_with(b"ERROR-1\r\n");
    assert_eq!(b.parse(), Ok(Response::Error(-1)));
    let mut b = buffer_with(b"ERROR2\r\n");
    assert_eq!(b.parse(), Ok(Response::Error(2)));
}

#[test]
fn parse_banner_every_region() {
    let cases = [
        (b'0', LoraRegion::EU868),
        (b'1', LoraRegion::US915),
        (b'2', LoraRegion::AU915),
        (b'3', LoraRegion::KR920),
        (b'4', LoraRegion::AS923),
        (b'5', LoraRegion::IN865),
    ];
    for (digit, region) in cases {
        let mut line = b"Initialized=".to_vec();
        line.push(digit);
        line.extend_from_slice(b"\r\n");
        let mut b = buffer_with(&line);
        assert_eq!(b.parse(), Ok(Response::Initialized(region)));
        assert_eq!(b.len(), 0);
    }
}

#[test]
fn parse_banner_unknown_region_is_decode_failure() {
    let mut b = buffer_with(b"Initialized=9\r\n");
    assert!(b.parse().is_err());
    assert_eq!(b.len(), 0, "the malformed unit is discarded as noise");
}

#[test]
fn parse_recv_event() {
    let mut b = buffer_with(b"Recv=1,0,4,PING\r\n");
    assert_eq!(
        b.parse(),
        Ok(Response::Recv(EventCode::TxConfirmed, 0, 4, b"PING".to_vec()))
    );
    assert_eq!(b.len(), 0);
}

#[test]
fn parse_recv_joined_success() {
    let mut b = buffer_with(b"Recv=3,0,0,\r\n");
    assert_eq!(
        b.parse(),
        Ok(Response::Recv(EventCode::JoinedSuccess, 0, 0, vec![]))
    );
}

#[test]
fn parse_recv_payload_may_contain_terminator_bytes() {
    let mut unit = b"Recv=2,0,4,".to_vec();
    unit.extend_from_slice(b"ab\r\n");
    unit.extend_from_slice(b"\r\n");
    let mut b = buffer_with(&unit);
    assert_eq!(
        b.parse(),
        Ok(Response::Recv(EventCode::TxUnconfirmed, 0, 4, b"ab\r\n".to_vec()))
    );
    assert_eq!(b.len(), 0);
}

#[test]
fn parse_recv_unknown_event_code_is_decode_failure() {
    let mut b = buffer_with(b"Recv=7,0,0,\r\n");
    assert!(b.parse().is_err());
    assert_eq!(b.len(), 0);
}

#[test]
fn parse_empty_and_partial_buffers_return_no_response() {
    let mut b = Buffer::new();
    assert_eq!(b.parse(), Ok(Response::NoResponse));
    let mut b = buffer_with(b"OK");
    assert_eq!(b.parse(), Ok(Response::NoResponse));
    assert_eq!(b.len(), 2, "a partial unit stays buffered");
    let mut b = buffer_with(b"Recv=1,0,10,short\r\n");
    assert_eq!(
        b.parse(),
        Ok(Response::NoResponse),
        "a declared payload longer than the buffered bytes keeps buffering"
    );
}

#[test]
fn parse_garbage_line_is_consumed_as_noise() {
    let mut b = buffer_with(b"bogus\r\nOK\r\n");
    assert!(b.parse().is_err());
    assert_eq!(b.parse(), Ok(Response::Ack));
    assert_eq!(b.len(), 0);
}

#[test]
fn buffer_fills_to_capacity_and_then_rejects() {
    let mut b = Buffer::new();
    for i in 0..RECV_BUFFER_LEN {
        assert_eq!(b.write((i % 251) as u8), Ok(()), "write {} must succeed", i);
    }
    assert_eq!(b.len(), RECV_BUFFER_LEN);
    assert_eq!(b.write(0), Err(LoraError::BufferFull));
    assert_eq!(b.len(), RECV_BUFFER_LEN);
}

#[test]
fn parse_two_units_buffered_together() {
    let mut b = buffer_with(b"Recv=3,0,0,\r\nOK\r\n");
    assert_eq!(
        b.parse(),
        Ok(Response::Recv(EventCode::JoinedSuccess, 0, 0, vec![]))
    );
    assert_eq!(b.parse(), Ok(Response::Ack));
    assert_eq!(b.len(), 0);
}

#[test]
fn parse_recv_malformed_header_falls_back_to_line_framing() {
    let mut b = buffer_with(b"Recv=x,0,0,\r\nOK\r\n");
    assert!(b.parse().is_err(), "a header that can never be well-formed is noise");
    assert_eq!(b.parse(), Ok(Response::Ack));
}

#[test]
fn parse_recv_port_out_of_range_is_decode_failure() {
    let mut b = buffer_with(b"Recv=1,300,0,\r\n");
    assert!(b.parse().is_err());
    assert_eq!(b.len(), 0);
}

#[test]
fn parse_recv_oversized_declared_length_is_noise() {
    let mut b = buffer_with(b"Recv=1,0,999,\r\nOK\r\n");
    assert!(b.parse().is_err(), "a declared length past the capacity cannot frame");
    assert_eq!(b.parse(), Ok(Response::Ack));
}
