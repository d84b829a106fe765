use rak811_at_driver::log_unexpected;
use rak811_at_driver::EventCode;
use rak811_at_driver::JoinMode;
use rak811_at_driver::LoraConfig;
use rak811_at_driver::LoraError;
use rak811_at_driver::LoraMode;
use rak811_at_driver::LoraRegion;
use rak811_at_driver::QoS;
use rak811_at_driver::Rak811Driver;
use rak811_at_driver::Response;
use rak811_at_driver::Step;

fn feed(driver: &mut Rak811Driver, bytes: &[u8]) -> Option<Response> {
    let mut got = None;
    for &b in bytes {
        driver.process_byte(b).expect("buffer must not overflow in this test");
        if got.is_none() {
            got = driver.try_parse();
        }
    }
    got
}

fn expect_transmit(step: Step) -> Vec<u8> {
    match step {
        Step::Transmit(v) => v,
        other => panic!("expected a transmit step, got {:?}", other),
    }
}

fn ack() -> Response {
    Response::Ack
}

fn recv(code: EventCode, port: u8) -> Response {
    Response::Recv(code, port, 0, vec![])
}

#[test]
fn initialize_records_discovered_region() {
    let mut d = Rak811Driver::new();
    d.start_initialize();
    let resp = feed(&mut d, b"Initialized=0\r\n").expect("banner must decode");
    assert_eq!(resp, Response::Initialized(LoraRegion::EU868));
    assert!(matches!(d.handle_response(resp), Step::Done));
    assert_eq!(d.current_config().region, Some(LoraRegion::EU868));
}

#[test]
fn initialize_with_unexpected_response_fails() {
    let mut d = Rak811Driver::new();
    d.start_initialize();
    let resp = feed(&mut d, b"OK\r\n").expect("line must decode");
    assert!(matches!(
        d.handle_response(resp),
        Step::Failed(LoraError::NotInitialized)
    ));
}

#[test]
fn line_split_across_reads_is_assembled() {
    let mut d = Rak811Driver::new();
    d.start_initialize();
    let line = b"Initialized=5\r\n";
    for (i, &b) in line.iter().enumerate() {
        d.process_byte(b).unwrap();
        let parsed = d.try_parse();
        if i + 1 < line.len() {
            assert!(parsed.is_none(), "no response before the unit completes");
        } else {
            assert_eq!(parsed, Some(Response::Initialized(LoraRegion::IN865)));
        }
    }
}

#[test]
fn configure_issues_commands_only_on_first_call() {
    let mut d = Rak811Driver::new();
    let cfg = LoraConfig::new()
        .region(LoraRegion::EU868)
        .lora_mode(LoraMode::WAN);

    let wire = expect_transmit(d.start_configure(&cfg));
    assert_eq!(wire, b"at+band=EU868\r\n");
    let wire = expect_transmit(d.handle_response(ack()));
    assert_eq!(wire, b"at+mode=0\r\n");
    assert!(matches!(d.handle_response(ack()), Step::Done));

    assert!(matches!(d.start_configure(&cfg), Step::Done));
}

#[test]
fn configure_skips_fields_equal_to_applied_values() {
    let mut d = Rak811Driver::new();
    let region_only = LoraConfig::new().region(LoraRegion::US915);
    let wire = expect_transmit(d.start_configure(&region_only));
    assert_eq!(wire, b"at+band=US915\r\n");
    assert!(matches!(d.handle_response(ack()), Step::Done));

    let both = region_only.lora_mode(LoraMode::P2P);
    let wire = expect_transmit(d.start_configure(&both));
    assert_eq!(wire, b"at+mode=1\r\n", "the applied region issues no second band command");
    assert!(matches!(d.handle_response(ack()), Step::Done));
}

#[test]
fn configure_non_ack_response_fails() {
    let mut d = Rak811Driver::new();
    let cfg = LoraConfig::new().region(LoraRegion::EU868);
    expect_transmit(d.start_configure(&cfg));
    assert!(matches!(
        d.handle_response(Response::Error(-1)),
        Step::Failed(LoraError::OtherError)
    ));
}

#[test]
fn join_otaa_issues_the_fixed_command_sequence() {
    let mut d = Rak811Driver::new();
    let mode = JoinMode::OTAA {
        dev_eui: [0, 0, 0, 0, 0, 0, 0, 1],
        app_eui: [0, 0, 0, 0, 0, 0, 0, 2],
        app_key: [0xAA; 16],
    };
    let wire = expect_transmit(d.start_join(mode));
    assert_eq!(wire, b"at+set_config=dev_eui:0000000000000001\r\n");
    let wire = expect_transmit(d.handle_response(ack()));
    assert_eq!(wire, b"at+set_config=app_eui:0000000000000002\r\n");
    let wire = expect_transmit(d.handle_response(ack()));
    assert_eq!(
        wire,
        b"at+set_config=app_key:AAAAAAAAAAAAAAAAAAAAAAAAAAAAAAAA\r\n"
    );
    let wire = expect_transmit(d.handle_response(ack()));
    assert_eq!(wire, b"at+join=otaa\r\n");
    assert!(matches!(d.handle_response(ack()), Step::Await));
    assert!(matches!(
        d.handle_response(recv(EventCode::JoinedSuccess, 0)),
        Step::Done
    ));
}

#[test]
fn join_otaa_aborts_on_any_non_ack() {
    let mut d = Rak811Driver::new();
    let mode = JoinMode::OTAA {
        dev_eui: [0; 8],
        app_eui: [0; 8],
        app_key: [0; 16],
    };
    expect_transmit(d.start_join(mode));
    expect_transmit(d.handle_response(ack()));
    assert!(matches!(
        d.handle_response(Response::Error(-3)),
        Step::Failed(LoraError::OtherError)
    ));
}

#[test]
fn join_otaa_wrong_event_fails() {
    let mut d = Rak811Driver::new();
    let mode = JoinMode::OTAA {
        dev_eui: [0; 8],
        app_eui: [0; 8],
        app_key: [0; 16],
    };
    expect_transmit(d.start_join(mode));
    expect_transmit(d.handle_response(ack()));
    expect_transmit(d.handle_response(ack()));
    expect_transmit(d.handle_response(ack()));
    assert!(matches!(d.handle_response(ack()), Step::Await));
    assert!(matches!(
        d.handle_response(recv(EventCode::JoinedFailed, 0)),
        Step::Failed(LoraError::OtherError)
    ));
}

#[test]
fn join_abp_issues_the_fixed_command_sequence() {
    let mut d = Rak811Driver::new();
    let mode = JoinMode::ABP {
        nwks_key: [0x11; 16],
        apps_key: [0x22; 16],
        dev_addr: [0x01, 0x02, 0x03, 0x04],
    };
    let wire = expect_transmit(d.start_join(mode));
    assert_eq!(wire, b"at+set_config=dev_addr:01020304\r\n");
    let wire = expect_transmit(d.handle_response(ack()));
    assert_eq!(
        wire,
        b"at+set_config=apps_key:22222222222222222222222222222222\r\n"
    );
    let wire = expect_transmit(d.handle_response(ack()));
    assert_eq!(
        wire,
        b"at+set_config=nwks_key:11111111111111111111111111111111\r\n"
    );
    let wire = expect_transmit(d.handle_response(ack()));
    assert_eq!(wire, b"at+join=abp\r\n");
    assert!(matches!(d.handle_response(ack()), Step::Await));
    assert!(matches!(
        d.handle_response(recv(EventCode::JoinedSuccess, 0)),
        Step::Done
    ));
}

#[test]
fn send_confirmed_succeeds_on_matching_event() {
    let mut d = Rak811Driver::new();
    let wire = expect_transmit(d.start_send(QoS::Confirmed, 1, b"PING".to_vec()));
    assert_eq!(wire, b"at+send=1,1,50494E47\r\n");
    assert!(matches!(d.handle_response(ack()), Step::Await));
    assert!(matches!(
        d.handle_response(recv(EventCode::TxConfirmed, 0)),
        Step::Done
    ));
}

#[test]
fn send_confirmed_fails_on_unconfirmed_event() {
    let mut d = Rak811Driver::new();
    expect_transmit(d.start_send(QoS::Confirmed, 1, b"PING".to_vec()));
    assert!(matches!(d.handle_response(ack()), Step::Await));
    assert!(matches!(
        d.handle_response(recv(EventCode::TxUnconfirmed, 0)),
        Step::Failed(LoraError::OtherError)
    ));
}

#[test]
fn send_event_on_nonzero_port_fails() {
    let mut d = Rak811Driver::new();
    expect_transmit(d.start_send(QoS::Unconfirmed, 2, vec![0x42]));
    assert!(matches!(d.handle_response(ack()), Step::Await));
    assert!(matches!(
        d.handle_response(recv(EventCode::TxUnconfirmed, 1)),
        Step::Failed(LoraError::OtherError)
    ));
}

#[test]
fn send_oversized_payload_fails_to_encode() {
    let mut d = Rak811Driver::new();
    assert!(matches!(
        d.start_send(QoS::Confirmed, 1, vec![0u8; 200]),
        Step::Failed(LoraError::EncodeError)
    ));
}

#[test]
fn unexpected_response_maps_to_other_error() {
    assert_eq!(log_unexpected(Response::Ack), Err(LoraError::OtherError));
}
