use rfidlibrs::{
    build_host_frame, build_reader_frame, parse_antenna_ports_response, parse_async_payload,
    parse_reader_frame, parse_single_tag_inventory_response, parse_tag_epc_and_meta_data,
    subcommand_crc, AntennaPortsConfiguration, AntennaPortsOption, AntennaPortsResponse,
    AntennaPower, AntennaPowerSettling, AsyncSubcommandCode, HostCommand, InventoryOption,
    InventorySearchFlags, MemBank, MetadataFlags, ProtocolError, RegionCode, StatusCode,
};

#[test]
fn reader_frame_builds_and_parses_back() {
    let packet = build_reader_frame(0x0C, 0x0000, &[0x12]);
    assert_eq!(packet, vec![0xFF, 0x01, 0x0C, 0x00, 0x00, 0x12, 0x63, 0x43]);
    let frame = parse_reader_frame(&packet).unwrap();
    assert_eq!(frame.command, 0x0C);
    assert_eq!(frame.status_raw, 0x0000);
    assert_eq!(frame.data, vec![0x12]);

    let packet = build_reader_frame(0x21, 0x0400, &[1, 2, 3]);
    let frame = parse_reader_frame(&packet).unwrap();
    assert_eq!(frame.command, 0x21);
    assert_eq!(frame.status_raw, 0x0400);
    assert_eq!(frame.status, StatusCode::from_u16(0x0400));
    assert_eq!(frame.data, vec![1, 2, 3]);
}

#[test]
fn reader_frame_errors() {
    assert_eq!(parse_reader_frame(&[0xFF, 0x00, 0x0C]), Err(ProtocolError::PacketTooShort));
    assert_eq!(
        parse_reader_frame(&[0xFE, 0x00, 0x0C, 0x00, 0x00, 0x00, 0x00]),
        Err(ProtocolError::InvalidHeader(0xFE))
    );
    assert_eq!(
        parse_reader_frame(&[0xFF, 0x02, 0x0C, 0x00, 0x00, 0x12, 0x63, 0x43]),
        Err(ProtocolError::LengthMismatch { declared: 2, actual: 1 })
    );
    match parse_reader_frame(&[0xFF, 0x01, 0x0C, 0x00, 0x00, 0x12, 0x63, 0x44]) {
        Err(ProtocolError::InvalidCrc { expected, actual }) => {
            assert_eq!(expected, 0x6343);
            assert_eq!(actual, 0x6344);
        }
        other => panic!("unexpected result: {other:?}"),
    }
    assert_eq!(build_host_frame(0x03, &[0u8; 256]), Err(ProtocolError::DataTooLong(256)));
}

#[test]
fn async_payload_builds_and_parses_back() {
    let packet = HostCommand::async_inventory(AsyncSubcommandCode::Start, &[0xAB, 0xCD]).unwrap();
    let data = &packet[3..packet.len() - 2];
    let payload = parse_async_payload(data).unwrap();
    assert_eq!(payload.subcommand, 0xAA48);
    assert_eq!(payload.subcommand_data, &[0xAB, 0xCD]);
    assert_eq!(subcommand_crc(0xAA48, &[0xAB, 0xCD]), ((0xAA + 0x48 + 0xAB + 0xCD) % 256) as u8);
}

#[test]
fn async_payload_errors() {
    assert_eq!(
        parse_async_payload(b"Moduletech"),
        Err(ProtocolError::InvalidResponse(
            "async payload too short for marker+code+subcrc+terminator"
        ))
    );
    let mut thirteen = b"Moduletech".to_vec();
    thirteen.extend_from_slice(&[0xAA, 0x48, 0xBB]);
    assert_eq!(
        parse_async_payload(&thirteen),
        Err(ProtocolError::InvalidResponse(
            "async payload too short for marker+code+subcrc+terminator"
        ))
    );
    let mut bad_marker = b"Modulexech".to_vec();
    bad_marker.extend_from_slice(&[0xAA, 0x49, 0xF3, 0xBB]);
    assert_eq!(
        parse_async_payload(&bad_marker),
        Err(ProtocolError::InvalidResponse("invalid async marker"))
    );
    let mut bad_end = b"Moduletech".to_vec();
    bad_end.extend_from_slice(&[0xAA, 0x49, 0xF3, 0xBC]);
    assert_eq!(
        parse_async_payload(&bad_end),
        Err(ProtocolError::InvalidResponse("invalid async terminator"))
    );
    let mut bad_crc = b"Moduletech".to_vec();
    bad_crc.extend_from_slice(&[0xAA, 0x49, 0x00, 0x00, 0xBB]);
    assert_eq!(
        parse_async_payload(&bad_crc),
        Err(ProtocolError::InvalidResponse("invalid async sub-CRC"))
    );
}

#[test]
fn codes_round_trip() {
    for raw in 0u8..=255 {
        if let Some(region) = RegionCode::from_u8(raw) {
            assert_eq!(region.as_u8(), raw);
        }
        if let Some(option) = AntennaPortsOption::from_u8(raw) {
            assert_eq!(option.as_u8(), raw);
        }
        if let Ok(bank) = MemBank::from_u8(raw) {
            assert_eq!(bank.as_u8(), raw);
        }
    }
    assert_eq!(RegionCode::from_u8(0x01), Some(RegionCode::NorthAmerica));
    assert_eq!(StatusCode::from_u16(0x0000), Some(StatusCode::Success));
    assert_eq!(StatusCode::Success.as_u16(), 0x0000);
    assert_eq!(StatusCode::from_u16(0xFFFF), None);
}

#[test]
fn flag_setters_and_getters_agree() {
    let flags = MetadataFlags::none().with_rssi(true).with_timestamp(true);
    assert!(flags.rssi());
    assert!(flags.timestamp());
    assert!(!flags.read_count());
    assert_eq!(flags.with_rssi(false).raw(), flags.raw() & !0x0002);
    assert_eq!(MetadataFlags::all().raw(), 0x00FF);

    let search = InventorySearchFlags::new().with_async_rest_ratio_steps(9).unwrap();
    assert_eq!(search.async_rest_ratio_steps(), 9);
    assert_eq!(search.raw(), 0x0900);
    assert!(InventorySearchFlags::new().with_async_rest_ratio_steps(16).is_err());
    let search = search.with_async_heartbeat(true).with_async_auto_stop(true);
    assert!(search.async_heartbeat_enabled());
    assert!(search.async_auto_stop_enabled());
    assert_eq!(search.raw(), 0xC900);

    let option = InventoryOption::default().with_single_tag_metadata(true);
    assert!(option.single_tag_metadata_enabled());
    assert_eq!(option.raw(), 0x10);
    assert_eq!(InventoryOption::from_raw(0xFF).select_option_bits(), 0x2F);
}

#[test]
fn antenna_configuration_reads_back() {
    let powers = vec![
        AntennaPower { tx: 1, read_power: 3000, write_power: 2500 },
        AntennaPower { tx: 2, read_power: 2000, write_power: 2000 },
    ];
    let packet =
        HostCommand::set_antenna_ports(&AntennaPortsConfiguration::Power(powers.clone())).unwrap();
    let data = &packet[3..packet.len() - 2];
    assert_eq!(
        parse_antenna_ports_response(AntennaPortsOption::Power, data).unwrap(),
        AntennaPortsResponse::Power(powers)
    );

    let settling = vec![AntennaPowerSettling {
        tx: 1,
        read_power: 3000,
        write_power: 3000,
        settling_time_us: 500,
    }];
    let packet = HostCommand::set_antenna_ports(&AntennaPortsConfiguration::PowerAndSettling(
        settling.clone(),
    ))
    .unwrap();
    let data = &packet[3..packet.len() - 2];
    assert_eq!(
        parse_antenna_ports_response(AntennaPortsOption::PowerAndSettling, data).unwrap(),
        AntennaPortsResponse::PowerAndSettling(settling)
    );

    assert_eq!(
        HostCommand::set_antenna_ports(&AntennaPortsConfiguration::Power(vec![])),
        Err(ProtocolError::InvalidArgument("antenna power entries cannot be empty"))
    );
}

#[test]
fn tag_block_with_metadata() {
    let flags = MetadataFlags::none().with_read_count(true).with_rssi(true).with_antenna_id(true);
    // ReadCount(1) | RSSI(1) | AntennaId(1) | EPC length(1) | PC(2) | EPC(2) | CRC(2)
    let data = [0x03, 0xCE, 0x01, 0x06, 0x30, 0x00, 0xAB, 0xCD, 0x12, 0x34];
    let tag = parse_tag_epc_and_meta_data(flags, &data).unwrap();
    assert_eq!(tag.read_count, Some(3));
    assert_eq!(tag.rssi_dbm, Some(-50));
    assert_eq!(tag.antenna_id, Some(1));
    assert_eq!(tag.pc_word, 0x3000);
    assert_eq!(tag.epc_id, vec![0xAB, 0xCD]);
    assert_eq!(tag.epc_bit_length, 48);
    assert_eq!(tag.tag_crc, 0x1234);

    assert_eq!(
        parse_tag_epc_and_meta_data(flags, &data[..9]),
        Err(ProtocolError::InvalidResponse("tag metadata missing tag CRC"))
    );
}

#[test]
fn single_tag_inventory_response_errors() {
    assert_eq!(
        parse_single_tag_inventory_response(0x00, &[]),
        Err(ProtocolError::InvalidResponse("single tag inventory response missing option"))
    );
    assert_eq!(
        parse_single_tag_inventory_response(0x00, &[0x10, 0x00]),
        Err(ProtocolError::InvalidResponse(
            "single tag inventory response option does not match request"
        ))
    );
    let (flags, tag) =
        parse_single_tag_inventory_response(0x00, &[0x00, 0xE2, 0x00, 0x12, 0x34]).unwrap();
    assert_eq!(flags.raw(), 0);
    assert_eq!(tag.epc_id, vec![0xE2, 0x00]);
    assert_eq!(tag.epc_bit_length, 16);
    assert_eq!(tag.tag_crc, 0x1234);
}

#[test]
fn read_tag_data_rejects_word_count() {
    assert_eq!(
        HostCommand::read_tag_data(1000, 0, None, MemBank::Tid, 0, 97, None, None),
        Err(ProtocolError::InvalidArgument("word_count must be in 1..=96"))
    );
}

#[test]
fn conversions_match_raw_values() {
    let region: u8 = RegionCode::NorthAmerica.into();
    assert_eq!(region, 0x01);
    let option: u8 = AntennaPortsOption::Power.into();
    assert_eq!(option, 0x03);
    let bank: u8 = MemBank::Tid.into();
    assert_eq!(bank, 0x02);
    assert_eq!(InventoryOption::from(0x10u8).raw(), 0x10);
    assert_eq!(u8::from(InventoryOption::from_raw(0x2F)), 0x2F);
    assert_eq!(InventorySearchFlags::from(0x8000u16).raw(), 0x8000);
    assert_eq!(u16::from(InventorySearchFlags::default()), 0);
    assert_eq!(MetadataFlags::from(0x0003u16).raw(), 0x0003);
    assert_eq!(u16::from(MetadataFlags::all()), 0x00FF);
}

#[test]
fn tag_block_fields_follow_flags() {
    let flags = MetadataFlags::none().with_read_count(true).with_rssi(true).with_antenna_id(true);
    let data = [0x03, 0xCE, 0x01, 0x06, 0x30, 0x00, 0xAB, 0xCD, 0x12, 0x34];
    let tag = parse_tag_epc_and_meta_data(flags, &data).unwrap();
    assert!(tag.read_count.is_some() && tag.rssi_dbm.is_some() && tag.antenna_id.is_some());
    assert!(tag.frequency_khz.is_none() && tag.timestamp_ms.is_none() && tag.rfu.is_none());
    assert!(tag.protocol_id.is_none() && tag.tag_data_bit_length.is_none() && tag.tag_data.is_none());
    assert_eq!(tag.epc_id.len() * 8 + 32, tag.epc_bit_length as usize);
}
