use rfidlibrs::{
    build_host_frame, parse_antenna_ports_response, parse_frequency_hopping_table,
    parse_reader_frame, parse_run_phase, parse_version_info, protocol_crc16, AntennaPair,
    AntennaPortsConfiguration, AntennaPortsOption, AntennaPortsResponse, AntennaPower,
    HostCommand, ProtocolError, RegionCode, RunPhase, StatusCode,
};

#[test]
fn crc16_matches_doc_example_for_get_version() {
    let msg = [0xFF, 0x00, 0x03];
    assert_eq!(protocol_crc16(&msg), 0x1D0C);
}

#[test]
fn build_get_version_packet_matches_example() {
    let p = HostCommand::get_version().unwrap();
    assert_eq!(p, vec![0xFF, 0x00, 0x03, 0x1D, 0x0C]);
}

#[test]
fn parse_reader_frame_success() {
    let packet = [0xFF, 0x01, 0x0C, 0x00, 0x00, 0x12, 0x63, 0x43];
    let f = parse_reader_frame(&packet).unwrap();
    assert_eq!(f.command, 0x0C);
    assert_eq!(f.status_raw, 0x0000);
    assert_eq!(f.status, Some(StatusCode::Success));
    assert_eq!(f.data, vec![0x12]);
}

#[test]
fn build_set_current_region_packet() {
    let p = HostCommand::set_current_region(RegionCode::NorthAmerica).unwrap();
    assert_eq!(p, vec![0xFF, 0x01, 0x97, 0x01, 0x4B, 0xBC]);
}

#[test]
fn build_set_antenna_access_pair_packet() {
    let p = HostCommand::set_antenna_ports(&AntennaPortsConfiguration::AccessPair(AntennaPair {
        tx: 0x01,
        rx: 0x01,
    }))
    .unwrap();
    assert_eq!(p, vec![0xFF, 0x03, 0x91, 0x00, 0x01, 0x01, 0x62, 0x87]);
}

#[test]
fn async_stop_matches_document_example() {
    let p = HostCommand::async_stop().unwrap();
    assert_eq!(
        p,
        vec![
            0xFF, 0x0E, 0xAA, 0x4D, 0x6F, 0x64, 0x75, 0x6C, 0x65, 0x74, 0x65, 0x63, 0x68, 0xAA,
            0x49, 0xF3, 0xBB, 0x03, 0x91,
        ]
    );
}

#[test]
fn parse_version_info_ok() {
    let data = [
        0x13, 0x04, 0x15, 0x00, 0xA8, 0x00, 0x00, 0x01, 0x20, 0x13, 0x05, 0x22, 0x13, 0x05, 0x23,
        0x00, 0x00, 0x00, 0x00, 0x10,
    ];
    let v = parse_version_info(&data).unwrap();
    assert_eq!(v.supported_protocol, [0x00, 0x00, 0x00, 0x10]);
}

#[test]
fn parse_get_run_phase() {
    assert_eq!(parse_run_phase(&[0x11]).unwrap(), RunPhase::Bootloader);
    assert_eq!(parse_run_phase(&[0x12]).unwrap(), RunPhase::AppFirmware);
}

#[test]
fn parse_get_frequency_hopping_table() {
    let data = [0x00, 0x0D, 0xF7, 0x32, 0x00, 0x0D, 0xC8, 0x52];
    let freqs = parse_frequency_hopping_table(&data).unwrap();
    assert_eq!(freqs, vec![915_250, 903_250]);
}

#[test]
fn parse_get_antenna_ports_power() {
    let data = [0x03, 0x01, 0x0B, 0xB8, 0x0B, 0xB8];
    let parsed = parse_antenna_ports_response(AntennaPortsOption::Power, &data).unwrap();
    assert_eq!(
        parsed,
        AntennaPortsResponse::Power(vec![AntennaPower {
            tx: 0x01,
            read_power: 0x0BB8,
            write_power: 0x0BB8,
        }])
    );
}

#[test]
fn build_host_frame_doc_example() {
    let packet = build_host_frame(0x03, &[]).unwrap();
    assert_eq!(packet, vec![0xFF, 0x00, 0x03, 0x1D, 0x0C]);
}

#[test]
fn protocol_error_text() {
    assert_eq!(ProtocolError::PacketTooShort.to_string(), "packet too short");
    assert_eq!(ProtocolError::InvalidHeader(0xAB).to_string(), "invalid header 0xAB");
    assert_eq!(
        ProtocolError::LengthMismatch { declared: 3, actual: 1 }.to_string(),
        "length mismatch: declared=3, actual=1"
    );
    assert_eq!(
        ProtocolError::InvalidCrc { expected: 0x1D0C, actual: 0x0001 }.to_string(),
        "invalid CRC: expected=0x1D0C, actual=0x0001"
    );
    assert_eq!(ProtocolError::DataTooLong(300).to_string(), "data length 300 exceeds 255 bytes");
    assert_eq!(
        ProtocolError::InvalidArgument("x").to_string(),
        "invalid argument: x"
    );
    assert_eq!(
        ProtocolError::InvalidResponse("y").to_string(),
        "invalid response: y"
    );
}
