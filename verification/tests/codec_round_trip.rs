//! The checkpoint codec: shape of the encoded object, rejection of corrupt
//! input, and the three-way optionality round trip.

use cw_indexer::codec::{
    decode_bytes, decode_checkpoint, decode_pos, encode_bytes, encode_checkpoint, encode_pos,
    JsonValue,
};
use cw_indexer::records::{AbsoluteTxPositionDef, AnyDef, CachedData, ContractInfoDef};

fn full_record() -> ContractInfoDef {
    ContractInfoDef {
        code_id: 77,
        creator: "juno1creator".to_owned(),
        admin: "juno1admin".to_owned(),
        label: "cw721 collection".to_owned(),
        created: Some(Some(AbsoluteTxPositionDef { block_height: 12345, tx_index: 6 })),
        ibc_port_id: "wasm.juno1port".to_owned(),
        extension: Some(Some(AnyDef {
            type_url: "/cosmwasm.wasm.v1.Extension".to_owned(),
            value: vec![0, 1, 2, 254, 255],
        })),
    }
}

fn empty_optionals_record() -> ContractInfoDef {
    ContractInfoDef {
        code_id: 1,
        creator: String::new(),
        admin: String::new(),
        label: String::new(),
        created: Some(None),
        ibc_port_id: String::new(),
        extension: Some(None),
    }
}

fn absent_optionals_record() -> ContractInfoDef {
    ContractInfoDef {
        code_id: 2,
        creator: "c".to_owned(),
        admin: "a".to_owned(),
        label: "l".to_owned(),
        created: None,
        ibc_port_id: "p".to_owned(),
        extension: None,
    }
}

#[test]
fn round_trip_keeps_three_way_optionality() {
    let checkpoint = CachedData {
        last_page: 9,
        data: vec![absent_optionals_record(), empty_optionals_record(), full_record()],
    };
    let encoded = encode_checkpoint(&checkpoint);
    let decoded = decode_checkpoint(&encoded).expect("an encoded checkpoint decodes");
    assert_eq!(decoded, checkpoint);
    assert_eq!(decoded.data[0].created, None);
    assert_eq!(decoded.data[1].created, Some(None));
    assert_eq!(
        decoded.data[2].created,
        Some(Some(AbsoluteTxPositionDef { block_height: 12345, tx_index: 6 }))
    );
}

#[test]
fn round_trip_of_empty_checkpoint() {
    let checkpoint = CachedData { last_page: 0, data: Vec::new() };
    let decoded = decode_checkpoint(&encode_checkpoint(&checkpoint));
    assert_eq!(decoded, Some(checkpoint));
}

#[test]
fn encoded_position_has_named_fields() {
    let j = encode_pos(&AbsoluteTxPositionDef { block_height: 5, tx_index: 2 });
    let expected = JsonValue::Object(vec![
        ("block_height".to_owned(), JsonValue::UInt(5)),
        ("tx_index".to_owned(), JsonValue::UInt(2)),
    ]);
    assert_eq!(j, expected);
}

#[test]
fn absent_optional_fields_are_left_out_of_the_object() {
    let encoded = encode_checkpoint(&CachedData {
        last_page: 0,
        data: vec![absent_optionals_record()],
    });
    let record_fields = match &encoded {
        JsonValue::Object(top) => match &top[1].1 {
            JsonValue::Items(items) => match &items[0] {
                JsonValue::Object(fields) => fields,
                other => panic!("record is not an object: {:?}", other),
            },
            other => panic!("data is not an array: {:?}", other),
        },
        other => panic!("checkpoint is not an object: {:?}", other),
    };
    let names: Vec<&str> = record_fields.iter().map(|f| f.0.as_str()).collect();
    assert_eq!(names, vec!["code_id", "creator", "admin", "label", "ibc_port_id"]);
}

#[test]
fn decode_accepts_any_field_order() {
    let reordered = JsonValue::Object(vec![
        ("data".to_owned(), JsonValue::Items(Vec::new())),
        ("last_page".to_owned(), JsonValue::UInt(4)),
    ]);
    let decoded = decode_checkpoint(&reordered);
    assert_eq!(decoded, Some(CachedData { last_page: 4, data: Vec::new() }));
}

#[test]
fn decode_rejects_corrupt_checkpoints() {
    assert_eq!(decode_checkpoint(&JsonValue::Text("junk".to_owned())), None);
    let missing_page = JsonValue::Object(vec![(
        "data".to_owned(),
        JsonValue::Items(Vec::new()),
    )]);
    assert_eq!(decode_checkpoint(&missing_page), None);
    let bad_record = JsonValue::Object(vec![
        ("last_page".to_owned(), JsonValue::UInt(0)),
        ("data".to_owned(), JsonValue::Items(vec![JsonValue::Null])),
    ]);
    assert_eq!(decode_checkpoint(&bad_record), None);
}

#[test]
fn byte_payloads_reject_values_over_255() {
    let good = encode_bytes(&vec![7, 255]);
    assert_eq!(decode_bytes(&good), Some(vec![7, 255]));
    let bad = JsonValue::Items(vec![JsonValue::UInt(256)]);
    assert_eq!(decode_bytes(&bad), None);
}

#[test]
fn position_decode_rejects_missing_field() {
    let only_height = JsonValue::Object(vec![(
        "block_height".to_owned(),
        JsonValue::UInt(3),
    )]);
    assert_eq!(decode_pos(&only_height), None);
}
