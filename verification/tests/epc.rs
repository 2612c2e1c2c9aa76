use rfidlibrs::{EpcValue, Giai96, ProtocolError, Sgtin96};

#[test]
fn epc_value_hex_and_tag_uri_helpers() {
    let epc = EpcValue::from_slice(&[0x30, 0x00, 0x11, 0x22]).expect("valid EPC");
    assert_eq!(epc.to_hex(), "30001122");

    let uri = EpcValue::tag_uri_custom("gid-96", &["1234", "5678", "90"]).expect("valid URI");
    assert_eq!(uri, "urn:epc:tag:gid-96:1234.5678.90");

    let uri_encoded = EpcValue::tag_uri_custom("sgtin-96", &["3", "0614141", "A/B C"])
        .expect("valid URI with escaping");
    assert_eq!(uri_encoded, "urn:epc:tag:sgtin-96:3.0614141.A%2FB%20C");

    let (scheme, values) =
        EpcValue::parse_tag_uri_custom(&uri_encoded).expect("valid URI decode");
    assert_eq!(scheme, "sgtin-96");
    assert_eq!(values, vec!["3", "0614141", "A/B C"]);

    let pure =
        EpcValue::tag_uri_to_pure_identity_uri("urn:epc:tag:sgtin-96:3.0614141.812345.6789")
            .expect("valid pure identity conversion");
    assert_eq!(pure, "urn:epc:id:sgtin:0614141.812345.6789");

    let uri_with_epc =
        epc.tag_uri_with_epc("raw", &["custom", "1"]).expect("valid URI with EPC");
    assert_eq!(uri_with_epc, "urn:epc:tag:raw:custom.1.30001122");
}

#[test]
fn sgtin96_encode_decode_roundtrip() {
    let fields = Sgtin96 {
        filter: 3,
        partition: 6,
        company_prefix: 614141,
        item_reference: 8123456,
        serial: 6789,
    };

    let epc = EpcValue::from_schema(fields).expect("encode sgtin-96");
    let decoded = epc.decode_sgtin96().expect("decode sgtin-96");
    assert_eq!(decoded, fields);

    let tag_uri = decoded.to_tag_uri().expect("tag uri");
    assert_eq!(tag_uri, "urn:epc:tag:sgtin-96:3.614141.8123456.6789");

    let pure_uri = decoded.to_pure_identity_uri().expect("pure uri");
    assert_eq!(pure_uri, "urn:epc:id:sgtin:614141.8123456.6789");
}

#[test]
fn giai96_encode_decode_roundtrip() {
    let fields = Giai96 {
        filter: 1,
        partition: 6,
        company_prefix: 614141,
        individual_asset_reference: 123456789,
    };

    let epc = EpcValue::from_schema(fields).expect("encode giai-96");
    let decoded = epc.decode_giai96().expect("decode giai-96");
    assert_eq!(decoded, fields);

    let tag_uri = decoded.to_tag_uri().expect("tag uri");
    assert_eq!(tag_uri, "urn:epc:tag:giai-96:1.614141.123456789");

    let pure_uri = decoded.to_pure_identity_uri().expect("pure uri");
    assert_eq!(pure_uri, "urn:epc:id:giai:614141.123456789");
}

#[test]
fn sgtin96_known_bytes() {
    // Header 0x30, filter 3, partition 5, company 0614141 (24 bits),
    // item 812345 (20 bits), serial 6789.
    let fields = Sgtin96 {
        filter: 3,
        partition: 5,
        company_prefix: 614141,
        item_reference: 812345,
        serial: 6789,
    };
    let epc = EpcValue::from_schema(fields).unwrap();
    assert_eq!(
        epc.as_bytes(),
        &[0x30, 0x74, 0x25, 0x7B, 0xF7, 0x19, 0x4E, 0x40, 0x00, 0x00, 0x1A, 0x85]
    );
    assert_eq!(epc.to_hex(), "3074257BF7194E4000001A85");
    assert_eq!(
        epc.decode_sgtin96().unwrap().to_tag_uri().unwrap(),
        "urn:epc:tag:sgtin-96:3.0614141.812345.6789"
    );
}

#[test]
fn sgtin96_rejects_out_of_range_fields() {
    let base = Sgtin96 { filter: 1, partition: 6, company_prefix: 1, item_reference: 1, serial: 1 };
    let bad_partition = Sgtin96 { partition: 7, ..base };
    assert_eq!(
        EpcValue::from_schema(bad_partition),
        Err(ProtocolError::InvalidArgument("sgtin-96 partition must be in 0..=6"))
    );
    let bad_filter = Sgtin96 { filter: 8, ..base };
    assert_eq!(
        EpcValue::from_schema(bad_filter),
        Err(ProtocolError::InvalidArgument("sgtin-96 filter must be in 0..=7"))
    );
    let bad_serial = Sgtin96 { serial: 1 << 38, ..base };
    assert_eq!(
        EpcValue::from_schema(bad_serial),
        Err(ProtocolError::InvalidArgument("sgtin-96 serial must fit in 38 bits"))
    );
    let bad_company = Sgtin96 { company_prefix: 1_000_000, ..base };
    assert_eq!(
        EpcValue::from_schema(bad_company),
        Err(ProtocolError::InvalidArgument(
            "sgtin-96 company prefix exceeds partition digit capacity"
        ))
    );
    let bad_item = Sgtin96 { item_reference: 10_000_000, ..base };
    assert_eq!(
        EpcValue::from_schema(bad_item),
        Err(ProtocolError::InvalidArgument(
            "sgtin-96 item reference exceeds partition digit capacity"
        ))
    );
}

#[test]
fn giai96_rejects_out_of_range_fields() {
    let base = Giai96 { filter: 1, partition: 6, company_prefix: 1, individual_asset_reference: 1 };
    let bad_asset = Giai96 { individual_asset_reference: 1 << 62, ..base };
    assert_eq!(
        EpcValue::from_schema(bad_asset),
        Err(ProtocolError::InvalidArgument(
            "giai-96 individual asset reference exceeds partition bit capacity"
        ))
    );
    let bad_company = Giai96 { company_prefix: 1_000_000, ..base };
    assert_eq!(
        EpcValue::from_schema(bad_company),
        Err(ProtocolError::InvalidArgument(
            "giai-96 company prefix exceeds partition digit capacity"
        ))
    );
}

#[test]
fn decode_rejects_wrong_length_and_header() {
    let short = EpcValue::from_slice(&[0x30, 0x00]).unwrap();
    assert_eq!(
        short.decode_sgtin96(),
        Err(ProtocolError::InvalidArgument("sgtin-96 requires exactly 12 EPC bytes"))
    );
    let giai = EpcValue::from_schema(Giai96 {
        filter: 1,
        partition: 6,
        company_prefix: 614141,
        individual_asset_reference: 5,
    })
    .unwrap();
    assert_eq!(
        giai.decode_sgtin96(),
        Err(ProtocolError::InvalidArgument("epc header is not sgtin-96 (expected 0x30)"))
    );
    assert!(EpcValue::new(Vec::new()).is_err());
}

#[test]
fn custom_uri_errors() {
    assert_eq!(
        EpcValue::tag_uri_custom("", &["1"]),
        Err(ProtocolError::InvalidArgument("tag_scheme cannot be empty"))
    );
    assert_eq!(
        EpcValue::tag_uri_custom("bad scheme", &["1"]),
        Err(ProtocolError::InvalidArgument("tag_scheme must contain only [A-Za-z0-9-]"))
    );
    assert_eq!(
        EpcValue::tag_uri_custom("raw", &[]),
        Err(ProtocolError::InvalidArgument("custom EPC Tag URI must include at least one value"))
    );
    assert_eq!(
        EpcValue::tag_uri_custom("raw", &["1", ""]),
        Err(ProtocolError::InvalidArgument("custom EPC Tag URI values cannot be empty"))
    );
    assert_eq!(
        EpcValue::parse_tag_uri_custom("urn:epc:id:sgtin:1.2"),
        Err(ProtocolError::InvalidArgument("EPC Tag URI must start with 'urn:epc:tag:'"))
    );
    assert_eq!(
        EpcValue::parse_tag_uri_custom("urn:epc:tag:raw"),
        Err(ProtocolError::InvalidArgument("EPC Tag URI is missing value section"))
    );
    assert_eq!(
        EpcValue::parse_tag_uri_custom("urn:epc:tag:raw:"),
        Err(ProtocolError::InvalidArgument("EPC Tag URI values cannot be empty"))
    );
    assert_eq!(
        EpcValue::parse_tag_uri_custom("urn:epc:tag:raw:1..2"),
        Err(ProtocolError::InvalidArgument("EPC Tag URI values cannot contain empty components"))
    );
    assert_eq!(
        EpcValue::parse_tag_uri_custom("urn:epc:tag:raw:1.%4"),
        Err(ProtocolError::InvalidArgument("invalid percent encoding in EPC URI component"))
    );
    assert_eq!(
        EpcValue::parse_tag_uri_custom("urn:epc:tag:raw:%FF"),
        Err(ProtocolError::InvalidArgument("EPC URI component is not UTF-8"))
    );
    assert_eq!(
        EpcValue::tag_uri_to_pure_identity_uri("urn:epc:tag:raw:1"),
        Err(ProtocolError::InvalidArgument("EPC Tag URI must include filter and identity values"))
    );
}

#[test]
fn custom_uri_round_trips_values() {
    let values = ["a b", "ü", "x.y", "~ok_-"];
    let uri = EpcValue::tag_uri_custom("my-scheme", &values).unwrap();
    assert_eq!(uri, "urn:epc:tag:my-scheme:a%20b.%C3%BC.x.y.~ok_-");
    let (scheme, decoded) = EpcValue::parse_tag_uri_custom(&uri).unwrap();
    assert_eq!(scheme, "my-scheme");
    // A dot inside a value is not escaped, so it splits the value on the way back.
    assert_eq!(decoded, vec!["a b", "ü", "x", "y", "~ok_-"]);
    assert_eq!(
        EpcValue::tag_uri_to_pure_identity_uri(&uri).unwrap(),
        "urn:epc:id:my-scheme:ü.x.y.~ok_-"
    );
    assert_eq!(
        EpcValue::tag_uri_to_pure_identity_uri("urn:epc:tag:giai-96:1.614141.5").unwrap(),
        "urn:epc:id:giai:614141.5"
    );
}

#[test]
fn decode_depending_on_header() {
    let epc = EpcValue::from_slice(&[
        0x30, 0x74, 0x4B, 0x5A, 0x1C, 0xA0, 0x10, 0x01, 0x00, 0x00, 0x1A, 0x85,
    ])
    .unwrap();
    let sgtin = epc.decode_sgtin96().unwrap();
    assert_eq!(sgtin.filter, 3);
    assert_eq!(sgtin.partition, 5);
    assert_eq!(sgtin.company_prefix, 1234567);
    assert_eq!(sgtin.item_reference, 163904);
    assert_eq!(sgtin.serial, 4294974085);
    assert_eq!(
        epc.decode_giai96(),
        Err(ProtocolError::InvalidArgument("epc header is not giai-96 (expected 0x34)"))
    );
    let bytes = epc.clone().into_bytes();
    assert_eq!(EpcValue::new(bytes).unwrap(), epc);
}

#[test]
fn encoded_headers_keep_the_schemes_apart() {
    let giai = Giai96 {
        filter: 1,
        partition: 6,
        company_prefix: 614141,
        individual_asset_reference: 123456789,
    };
    let epc = EpcValue::from_schema(giai).unwrap();
    assert_eq!(epc.as_bytes()[0], 0x34);
    assert_eq!(
        epc.decode_sgtin96(),
        Err(ProtocolError::InvalidArgument("epc header is not sgtin-96 (expected 0x30)"))
    );

    let sgtin = Sgtin96 {
        filter: 3,
        partition: 6,
        company_prefix: 614141,
        item_reference: 8123456,
        serial: 6789,
    };
    let epc = EpcValue::from_schema(sgtin).unwrap();
    assert_eq!(epc.as_bytes()[0], 0x30);
    assert_eq!(
        epc.decode_giai96(),
        Err(ProtocolError::InvalidArgument("epc header is not giai-96 (expected 0x34)"))
    );
}
