use std::collections::VecDeque;

use rfidlibrs::test_support::{reply_frame, MockInteraction, MockTransport};
use rfidlibrs::{
    protocol_crc16, subcommand_crc, AsyncInventoryMessage, AsyncInventorySession,
    AsyncSubcommandCode, ClientError, CommandCode, InventorySearchFlags, MetadataFlags,
    ReaderClient, ReaderTransport, RegionCode, SelectOption, SilionHost, SilionReader,
};

#[derive(Debug)]
struct TestTransport {
    rx: VecDeque<u8>,
    tx: Vec<u8>,
}

impl TestTransport {
    fn from_frames(frames: Vec<Vec<u8>>) -> Self {
        let mut rx = VecDeque::new();
        for frame in frames {
            rx.extend(frame);
        }
        Self { rx, tx: Vec::new() }
    }
}

impl ReaderTransport for TestTransport {
    type Error = &'static str;
    type Peer = ();

    fn write_all(&mut self, data: &[u8]) -> Result<(), Self::Error> {
        self.tx.extend_from_slice(data);
        Ok(())
    }

    fn read_exact(&mut self, buf: &mut [u8]) -> Result<(), Self::Error> {
        if self.rx.len() < buf.len() {
            return Err("eof");
        }
        for b in buf.iter_mut() {
            *b = self.rx.pop_front().ok_or("eof")?;
        }
        Ok(())
    }
}

fn frame(command: u8, status: u16, data: &[u8]) -> Vec<u8> {
    let mut out = Vec::new();
    out.push(0xFF);
    out.push(data.len() as u8);
    out.push(command);
    out.extend_from_slice(&status.to_be_bytes());
    out.extend_from_slice(data);
    let crc = protocol_crc16(&out);
    out.extend_from_slice(&crc.to_be_bytes());
    out
}

const VERSION_DATA: [u8; 20] = [
    0x13, 0x04, 0x15, 0x00, 0xA8, 0x00, 0x00, 0x01, 0x20, 0x13, 0x05, 0x22, 0x13, 0x05, 0x23,
    0x00, 0x00, 0x00, 0x00, 0x10,
];

#[test]
fn silion_reader_get_version_and_region() {
    let version = frame(CommandCode::GetVersion.as_u8(), 0x0000, &VERSION_DATA);
    let region = frame(CommandCode::GetCurrentRegion.as_u8(), 0x0000, &[0x01]);

    let transport = TestTransport::from_frames(vec![version, region]);
    let mut reader = SilionReader::new(transport);

    let v = reader.get_version().unwrap();
    assert_eq!(v.supported_protocol, [0, 0, 0, 0x10]);
    let r = reader.get_current_region().unwrap();
    assert_eq!(r, RegionCode::NorthAmerica);
}

#[test]
fn get_version_and_region() {
    let transport = MockTransport::scripted(vec![
        MockInteraction {
            request_command: CommandCode::GetVersion.as_u8(),
            response_status: 0x0000,
            response_data: VERSION_DATA.to_vec(),
        },
        MockInteraction {
            request_command: CommandCode::GetCurrentRegion.as_u8(),
            response_status: 0x0000,
            response_data: vec![0x01],
        },
    ]);

    let mut reader = SilionReader::new(transport);
    let version = reader.get_version().expect("version should parse");
    assert_eq!(version.supported_protocol, [0x00, 0x00, 0x00, 0x10]);

    let region = reader.get_current_region().expect("region should parse");
    assert_eq!(region, RegionCode::NorthAmerica);
}

fn heartbeat_packet() -> Vec<u8> {
    let mut data = b"XTSJ".to_vec();
    data.extend_from_slice(&0x8000u16.to_be_bytes());
    data.push(0x01);
    reply_frame(CommandCode::AsynchronousInventory.as_u8(), 0x0000, &data)
}

#[test]
fn recv_async_inventory_heartbeat() {
    let transport = MockTransport::from_replies(vec![heartbeat_packet()]);

    let mut reader = SilionReader::new(transport);
    let message = reader.recv_async_inventory_message().expect("async message should parse");

    match message {
        AsyncInventoryMessage::Heartbeat { search_flags, state_data } => {
            assert_eq!(search_flags, InventorySearchFlags::from_raw(0x8000));
            assert_eq!(state_data, vec![0x01]);
        }
        other => panic!("unexpected async message: {other:?}"),
    }
}

#[test]
fn recv_heartbeat_message() {
    let transport = MockTransport::from_replies(vec![heartbeat_packet()]);
    let client = ReaderClient::new(transport);
    let mut session = AsyncInventorySession::new(client);

    let message = session.recv().expect("message should parse");
    match message {
        AsyncInventoryMessage::Heartbeat { search_flags, state_data } => {
            assert_eq!(search_flags, InventorySearchFlags::from_raw(0x8000));
            assert_eq!(state_data, vec![0x01]);
        }
        other => panic!("unexpected async message: {other:?}"),
    }
}

#[test]
fn stop_recovers_host() {
    let stop = AsyncSubcommandCode::Stop.as_u16();
    let mut stop_ack = b"Moduletech".to_vec();
    stop_ack.extend_from_slice(&stop.to_be_bytes());
    stop_ack.push(subcommand_crc(stop, &[]));
    stop_ack.push(0xBB);

    let transport = MockTransport::scripted(vec![
        MockInteraction {
            request_command: CommandCode::AsynchronousInventory.as_u8(),
            response_status: 0x0000,
            response_data: stop_ack,
        },
        MockInteraction {
            request_command: CommandCode::GetCurrentRegion.as_u8(),
            response_status: 0x0000,
            response_data: vec![0x01],
        },
    ]);
    let client = ReaderClient::new(transport);
    let mut session = AsyncInventorySession::new(client);

    session.send_stop().expect("stop should be written");
    loop {
        let message = session.recv().expect("stop should recover host");
        if message == AsyncInventoryMessage::StopAck {
            break;
        }
    }
    let mut host = session.into_host();
    let region = host.get_current_region().expect("recovered host should work");
    assert_eq!(region, RegionCode::NorthAmerica);
}

#[test]
fn single_tag_inventory_success() {
    // Option (bit 4 set: metadata mode) + MetadataFlags (2) + EPC ID + Tag CRC
    let mut response_data = Vec::new();
    response_data.push(0x10);
    response_data.extend_from_slice(&0x0000u16.to_be_bytes());
    response_data.extend_from_slice(&[0x01, 0x02, 0x03, 0x04, 0x05, 0x06]);
    response_data.extend_from_slice(&0x1234u16.to_be_bytes());

    let transport = MockTransport::from_replies(vec![reply_frame(
        CommandCode::SingleTagInventory.as_u8(),
        0x0000,
        &response_data,
    )]);

    let mut reader = SilionReader::new(transport);
    let tag = reader
        .single_tag_inventory(5000, SelectOption::Disabled, Some(MetadataFlags::from_raw(0x0000)))
        .expect("single tag inventory should succeed");

    assert_eq!(tag.pc_word, 0x0000);
    assert_eq!(tag.epc_bit_length, 48);
    assert_eq!(tag.epc_id, vec![0x01, 0x02, 0x03, 0x04, 0x05, 0x06]);
    assert_eq!(tag.tag_crc, 0x1234);
    assert_eq!(tag.read_count, None);
    assert_eq!(tag.rssi_dbm, None);
}

#[test]
fn host_get_run_phase_and_protocol_configuration() {
    let transport = MockTransport::scripted(vec![
        MockInteraction {
            request_command: CommandCode::GetRunPhase.as_u8(),
            response_status: 0x0000,
            response_data: vec![0x12],
        },
        MockInteraction {
            request_command: CommandCode::GetProtocolConfiguration.as_u8(),
            response_status: 0x0000,
            response_data: vec![0x05, 0x00, 0x00],
        },
    ]);
    let mut host = SilionHost::new(transport);
    assert_eq!(host.get_run_phase().unwrap(), rfidlibrs::RunPhase::AppFirmware);
    let cfg = host.get_protocol_configuration(0x05, 0x00).unwrap();
    assert_eq!(cfg.protocol_value, 0x05);
    assert_eq!(cfg.parameter, 0x00);
    assert_eq!(cfg.value, Some(0x00));
}

#[test]
fn host_reports_reader_status() {
    let transport = MockTransport::scripted(vec![MockInteraction {
        request_command: CommandCode::GetCurrentRegion.as_u8(),
        response_status: 0x0400,
        response_data: vec![],
    }]);
    let mut host = SilionHost::new(transport);
    match host.get_current_region() {
        Err(ClientError::ReaderStatus { status_raw, .. }) => assert_eq!(status_raw, 0x0400),
        other => panic!("unexpected result: {other:?}"),
    }
}

#[test]
fn host_reports_unexpected_response_command() {
    let transport = MockTransport::from_replies(vec![reply_frame(
        CommandCode::GetGpi.as_u8(),
        0x0000,
        &[0x01],
    )]);
    let mut host = SilionHost::new(transport);
    match host.get_current_temperature() {
        Err(ClientError::UnexpectedResponseCommand { expected, actual }) => {
            assert_eq!(expected, CommandCode::GetCurrentTemperature.as_u8());
            assert_eq!(actual, CommandCode::GetGpi.as_u8());
        }
        other => panic!("unexpected result: {other:?}"),
    }
}

#[test]
fn host_reports_transport_error_on_empty_stream() {
    let transport = MockTransport::from_replies(vec![]);
    let mut host = SilionHost::new(transport);
    match host.get_gpi() {
        Err(ClientError::Transport(e)) => assert_eq!(e, "eof"),
        other => panic!("unexpected result: {other:?}"),
    }
}

#[test]
fn enable_async_inventory_accepts_start_ack() {
    let transport = MockTransport::scripted(vec![MockInteraction {
        request_command: CommandCode::AsynchronousInventory.as_u8(),
        response_status: 0x0000,
        response_data: b"Moduletech\xAA\x48".to_vec(),
    }]);
    let search_flags = InventorySearchFlags::new()
        .with_async_heartbeat(true)
        .with_async_auto_stop(false)
        .with_embedded_command(true)
        .with_async_rest_ratio_steps(3)
        .unwrap();
    let start = rfidlibrs::AsyncInventoryStartData {
        metadata_flags: MetadataFlags::all(),
        option: rfidlibrs::InventoryOption::default(),
        search_flags,
        access_password: None,
        select_content: None,
        embedded_command_content: Some(rfidlibrs::InventoryEmbeddedCommandContent::ReadTagData(
            rfidlibrs::EmbeddedReadTagData {
                read_membank: rfidlibrs::MemBank::Tid,
                read_address_words: 0,
                word_count: 2,
            },
        )),
    };
    let mut host = SilionHost::new(transport);
    host.enable_async_inventory(&start).unwrap();
}

#[test]
fn read_tag_data_without_metadata_returns_tag_data() {
    let transport = MockTransport::from_replies(vec![reply_frame(
        CommandCode::ReadTagData.as_u8(),
        0x0000,
        &[0x00, 0xE2, 0x80, 0x11, 0x05],
    )]);
    let mut reader = SilionReader::new(transport);
    let tag = reader
        .read_tag_data(1000, SelectOption::Disabled, None, rfidlibrs::MemBank::Tid, 0, 2)
        .unwrap();
    assert_eq!(tag.tag_data, Some(vec![0xE2, 0x80, 0x11, 0x05]));
    assert_eq!(tag.tag_data_bit_length, Some(32));
    assert!(tag.epc_id.is_empty());
}

#[test]
fn read_tag_data_rejects_word_count_out_of_range() {
    let transport = MockTransport::from_replies(vec![]);
    let mut reader = SilionReader::new(transport);
    match reader.read_tag_data(1000, SelectOption::Disabled, None, rfidlibrs::MemBank::Tid, 0, 0) {
        Err(ClientError::Protocol(rfidlibrs::ProtocolError::InvalidArgument(m))) => {
            assert_eq!(m, "word_count must be in 1..=96")
        }
        other => panic!("unexpected result: {other:?}"),
    }
}

#[test]
fn select_option_sets_mode_and_invert_bits() {
    let sel = SelectOption::Tid {
        select_address: 0x20,
        select_length_bits: 16,
        select_data: vec![0xE2, 0x80],
        invert: true,
    };
    let (option, content) = sel.option_content();
    assert_eq!(option.raw(), 0x0A);
    let content = content.unwrap();
    assert_eq!(content.address_bits, 0x20);
    assert_eq!(content.bit_len, 16);
    assert_eq!(content.data, vec![0xE2, 0x80]);
    let (option, content) = SelectOption::PasswordOnly.option_content();
    assert_eq!(option.raw(), 0x05);
    assert!(content.is_none());
}

#[test]
fn truncated_async_payload_is_refused() {
    let mut data = b"Moduletech".to_vec();
    data.extend_from_slice(&[0xAA, 0x48, 0xBB]);
    assert!(matches!(
        rfidlibrs::parse_async_frame_data(&data),
        Err(rfidlibrs::ProtocolError::InvalidResponse(
            "async payload too short for marker+code+subcrc+terminator"
        ))
    ));
}

#[test]
fn host_set_current_region() {
    let transport = MockTransport::scripted(vec![MockInteraction {
        request_command: CommandCode::SetCurrentRegion.as_u8(),
        response_status: 0x0000,
        response_data: vec![],
    }]);
    let mut host = SilionHost::new(transport);
    host.set_current_region(RegionCode::NorthAmerica).unwrap();
}

#[test]
fn scripted_mock_rejects_unexpected_request() {
    let transport = MockTransport::scripted(vec![MockInteraction {
        request_command: CommandCode::GetVersion.as_u8(),
        response_status: 0x0000,
        response_data: VERSION_DATA.to_vec(),
    }]);
    let mut host = SilionHost::new(transport);
    match host.get_current_region() {
        Err(ClientError::Transport(e)) => assert_eq!(e, "unexpected request command"),
        other => panic!("unexpected result: {other:?}"),
    }
}

#[test]
fn transact_with_oversized_data_leaves_transport_untouched() {
    let transport = MockTransport::scripted(vec![MockInteraction {
        request_command: CommandCode::GetCurrentRegion.as_u8(),
        response_status: 0x0000,
        response_data: vec![0x01],
    }]);
    let mut client = ReaderClient::new(transport);
    match client.transact(CommandCode::GetCurrentRegion.as_u8(), &[0u8; 256]) {
        Err(ClientError::Protocol(rfidlibrs::ProtocolError::DataTooLong(256))) => {}
        other => panic!("unexpected result: {other:?}"),
    }
    // The scripted interaction was not consumed: the next exchange gets it.
    let frame = client.transact(CommandCode::GetCurrentRegion.as_u8(), &[]).unwrap();
    assert_eq!(frame.data, vec![0x01]);
}

#[test]
fn failed_write_reads_nothing() {
    let transport = MockTransport::scripted(vec![
        MockInteraction {
            request_command: CommandCode::GetVersion.as_u8(),
            response_status: 0x0000,
            response_data: vec![],
        },
        MockInteraction {
            request_command: CommandCode::GetCurrentRegion.as_u8(),
            response_status: 0x0000,
            response_data: vec![0x01],
        },
    ]);
    let mut client = ReaderClient::new(transport);
    let request = rfidlibrs::build_host_frame(CommandCode::GetCurrentRegion.as_u8(), &[]).unwrap();
    match client.transact_frame(&request) {
        Err(ClientError::Transport(e)) => assert_eq!(e, "unexpected request command"),
        other => panic!("unexpected result: {other:?}"),
    }
    // Nothing was read after the failed write; the second reply is intact.
    let frame = client.transact_frame(&request).unwrap();
    assert_eq!(frame.command, CommandCode::GetCurrentRegion.as_u8());
    assert_eq!(frame.data, vec![0x01]);
}

#[test]
fn transact_frame_returns_any_well_formed_reply() {
    let reply = reply_frame(0x21, 0x0400, &[0x07]);
    let transport = MockTransport::from_replies(vec![reply]);
    let mut client = ReaderClient::new(transport);
    let request = rfidlibrs::build_host_frame(0x03, &[]).unwrap();
    let frame = client.transact_frame(&request).unwrap();
    assert_eq!(frame.command, 0x21);
    assert_eq!(frame.status_raw, 0x0400);
    assert_eq!(frame.data, vec![0x07]);
}
