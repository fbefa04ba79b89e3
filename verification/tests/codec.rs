//! Round-trip and byte-layout tests of the request codec and of typed
//! values.

use cql::def::{
    BatchType, Consistency, CqlBytesSize, CqlIpAddr, CqlPair, CqlRequest, CqlRequestBody,
    CqlStringMap, CqlValue, CqlValueType, OpcodeRequest, Query,
};
use cql::error::RCErrorType;
use cql::reader::CqlReader;
use cql::serialize::{decode_request, encode_request, encode_value_single};

fn roundtrip(req: &CqlRequest, version: u8, ctx: &Vec<Vec<CqlValueType>>) -> CqlRequest {
    let bytes = encode_request(req).expect("request must encode");
    decode_request(&bytes, version, ctx).expect("request must decode")
}

fn no_ctx() -> Vec<Vec<CqlValueType>> {
    Vec::new()
}

#[test]
fn roundtrip_startup() {
    let req = CqlRequest {
        version: 3,
        flags: 0,
        stream: 1,
        opcode: OpcodeRequest::OpcodeStartup,
        body: CqlRequestBody::RequestStartup(CqlStringMap {
            pairs: vec![CqlPair { key: "CQL_VERSION".to_string(), value: "3.0.0".to_string() }],
        }),
    };
    let back = roundtrip(&req, 3, &no_ctx());
    assert_eq!(back, req);
}

#[test]
fn roundtrip_credentials() {
    let req = CqlRequest {
        version: 2,
        flags: 0,
        stream: 5,
        opcode: OpcodeRequest::OpcodeCred,
        body: CqlRequestBody::RequestCred(vec!["user".to_string(), "secret".to_string()]),
    };
    let back = roundtrip(&req, 2, &no_ctx());
    assert_eq!(back, req);
}

#[test]
fn roundtrip_options() {
    let req = CqlRequest {
        version: 1,
        flags: 0,
        stream: 0,
        opcode: OpcodeRequest::OpcodeOptions,
        body: CqlRequestBody::RequestOptions,
    };
    let back = roundtrip(&req, 1, &no_ctx());
    assert_eq!(back, req);
}

#[test]
fn roundtrip_query() {
    let req = CqlRequest {
        version: 3,
        flags: 0,
        stream: 7,
        opcode: OpcodeRequest::OpcodeQuery,
        body: CqlRequestBody::RequestQuery(
            "SELECT * FROM ks.t".to_string(),
            Consistency::Quorum,
            0,
        ),
    };
    let back = roundtrip(&req, 3, &no_ctx());
    assert_eq!(back, req);
}

#[test]
fn roundtrip_prepare() {
    let req = CqlRequest {
        version: 2,
        flags: 0,
        stream: 2,
        opcode: OpcodeRequest::OpcodePrepare,
        body: CqlRequestBody::RequestPrepare("INSERT INTO ks.t(k,v) VALUES(?,?)".to_string()),
    };
    let back = roundtrip(&req, 2, &no_ctx());
    assert_eq!(back, req);
}

#[test]
fn roundtrip_execute_with_values() {
    let req = CqlRequest {
        version: 3,
        flags: 0,
        stream: 9,
        opcode: OpcodeRequest::OpcodeExecute,
        body: CqlRequestBody::RequestExec(
            vec![0xAB, 0xCD],
            vec![CqlValue::CqlInt(Some(42)), CqlValue::CqlVarchar(Some("x".to_string()))],
            Consistency::One,
            1,
        ),
    };
    let ctx = vec![vec![CqlValueType::ColumnInt, CqlValueType::ColumnVarChar]];
    let back = roundtrip(&req, 3, &ctx);
    assert_eq!(back, req);
}

#[test]
fn roundtrip_batch() {
    let req = CqlRequest {
        version: 3,
        flags: 0,
        stream: -5,
        opcode: OpcodeRequest::OpcodeBatch,
        body: CqlRequestBody::RequestBatch(
            vec![
                Query::QueryStr("UPDATE ks.t SET v = 1".to_string(), vec![]),
                Query::QueryPrepared(vec![0x01, 0x02], vec![CqlValue::CqlBoolean(Some(true))]),
            ],
            BatchType::Logged,
            Consistency::All,
            0,
        ),
    };
    let ctx = vec![vec![], vec![CqlValueType::ColumnBoolean]];
    let back = roundtrip(&req, 3, &ctx);
    assert_eq!(back, req);
}

#[test]
fn roundtrip_register() {
    let req = CqlRequest {
        version: 3,
        flags: 0,
        stream: 1,
        opcode: OpcodeRequest::OpcodeRegister,
        body: CqlRequestBody::RequestRegister(vec![
            "TOPOLOGY_CHANGE".to_string(),
            "STATUS_CHANGE".to_string(),
        ]),
    };
    let back = roundtrip(&req, 3, &no_ctx());
    assert_eq!(back, req);
}

#[test]
fn encoding_is_idempotent() {
    let req = CqlRequest {
        version: 3,
        flags: 0,
        stream: 3,
        opcode: OpcodeRequest::OpcodeQuery,
        body: CqlRequestBody::RequestQuery("SELECT now()".to_string(), Consistency::One, 0),
    };
    let a = encode_request(&req).unwrap();
    let b = encode_request(&req).unwrap();
    assert_eq!(a, b);
}

#[test]
fn frame_length_counts_body() {
    let req = CqlRequest {
        version: 3,
        flags: 0,
        stream: 1,
        opcode: OpcodeRequest::OpcodeQuery,
        body: CqlRequestBody::RequestQuery("SELECT peer FROM system.peers".to_string(),
            Consistency::One, 0),
    };
    let bytes = encode_request(&req).unwrap();
    // v3 header: version, flags, 2-byte stream, opcode, then a 4-byte length.
    let len = u32::from_be_bytes([bytes[5], bytes[6], bytes[7], bytes[8]]) as usize;
    assert_eq!(len, bytes.len() - 9);

    let req1 = CqlRequest { version: 2, stream: 1, ..req };
    let bytes1 = encode_request(&req1).unwrap();
    let len1 = u32::from_be_bytes([bytes1[4], bytes1[5], bytes1[6], bytes1[7]]) as usize;
    assert_eq!(len1, bytes1.len() - 8);
}

#[test]
fn execute_uses_two_byte_value_lengths_on_v2() {
    // P-style scenario: a v2 execute with an int and a varchar bound value
    // lays the values out with 2-byte lengths.
    let req = CqlRequest {
        version: 2,
        flags: 0,
        stream: 1,
        opcode: OpcodeRequest::OpcodeExecute,
        body: CqlRequestBody::RequestExec(
            vec![0x10],
            vec![CqlValue::CqlInt(Some(42)), CqlValue::CqlVarchar(Some("x".to_string()))],
            Consistency::One,
            1,
        ),
    };
    let bytes = encode_request(&req).unwrap();
    // v2 header is 4 bytes + 4 length bytes; body: id short bytes (2+1),
    // then the value count and the values.
    let body = &bytes[8..];
    assert_eq!(&body[0..3], &[0x00, 0x01, 0x10]);
    assert_eq!(&body[3..5], &[0x00, 0x02]);
    // int: 2-byte length 4, then 4 payload bytes
    assert_eq!(&body[5..11], &[0x00, 0x04, 0x00, 0x00, 0x00, 0x2A]);
    // varchar: 2-byte length 1, then "x"
    assert_eq!(&body[11..14], &[0x00, 0x01, b'x']);
    // consistency ONE, flags 1
    assert_eq!(&body[14..17], &[0x00, 0x01, 0x01]);
}

fn single_value_roundtrip(v: CqlValue, t: CqlValueType, sz: CqlBytesSize) -> CqlValue {
    let mut buf: Vec<u8> = Vec::new();
    encode_value_single(&mut buf, &v, sz).expect("value must encode");
    let mut rd = CqlReader::new(buf);
    rd.read_cql_value_single(t, sz).expect("value must decode")
}

#[test]
fn typed_values_roundtrip() {
    let cases: Vec<(CqlValue, CqlValueType)> = vec![
        (CqlValue::CqlASCII(Some("abc".to_string())), CqlValueType::ColumnASCII),
        (CqlValue::CqlVarchar(Some("héllo".to_string())), CqlValueType::ColumnVarChar),
        (CqlValue::CqlText(None), CqlValueType::ColumnText),
        (CqlValue::CqlInt(Some(-7)), CqlValueType::ColumnInt),
        (CqlValue::CqlInt(None), CqlValueType::ColumnInt),
        (CqlValue::CqlBigInt(Some(-90000000000)), CqlValueType::ColumnBigInt),
        (CqlValue::CqlCounter(Some(12)), CqlValueType::ColumnCounter),
        (CqlValue::CqlTimestamp(Some(1700000000000)), CqlValueType::ColumnTimestamp),
        (CqlValue::CqlFloat(Some(0x3F80_0000)), CqlValueType::ColumnFloat),
        (CqlValue::CqlDouble(Some(0x3FF0_0000_0000_0000)), CqlValueType::ColumnDouble),
        (CqlValue::CqlBoolean(Some(true)), CqlValueType::ColumnBoolean),
        (CqlValue::CqlBoolean(Some(false)), CqlValueType::ColumnBoolean),
        (CqlValue::CqlBlob(Some(vec![1, 2, 3])), CqlValueType::ColumnBlob),
        (CqlValue::CqlBlob(Some(vec![])), CqlValueType::ColumnBlob),
        (CqlValue::CqlBlob(None), CqlValueType::ColumnBlob),
        (
            CqlValue::CqlUuid(Some(vec![
                0, 1, 2, 3, 4, 5, 6, 7, 8, 9, 10, 11, 12, 13, 14, 15,
            ])),
            CqlValueType::ColumnUuid,
        ),
        (CqlValue::CqlVarint(Some(vec![0x01, 0xFF])), CqlValueType::ColumnVarint),
        (CqlValue::CqlInet(Some(CqlIpAddr::V4(10, 0, 0, 7))), CqlValueType::ColumnInet),
        (
            CqlValue::CqlInet(Some(CqlIpAddr::V6(0x2001, 0xdb8, 0, 0, 0, 0, 0, 1))),
            CqlValueType::ColumnInet,
        ),
    ];
    for (v, t) in cases {
        let b32 = single_value_roundtrip(clone_value(&v), t, CqlBytesSize::Cqli32);
        assert_eq!(b32, v);
        let b16 = single_value_roundtrip(clone_value(&v), t, CqlBytesSize::Cqli16);
        assert_eq!(b16, v);
    }
}

fn clone_value(v: &CqlValue) -> CqlValue {
    match v {
        CqlValue::CqlASCII(o) => CqlValue::CqlASCII(o.clone()),
        CqlValue::CqlVarchar(o) => CqlValue::CqlVarchar(o.clone()),
        CqlValue::CqlText(o) => CqlValue::CqlText(o.clone()),
        CqlValue::CqlInt(o) => CqlValue::CqlInt(*o),
        CqlValue::CqlBigInt(o) => CqlValue::CqlBigInt(*o),
        CqlValue::CqlFloat(o) => CqlValue::CqlFloat(*o),
        CqlValue::CqlDouble(o) => CqlValue::CqlDouble(*o),
        CqlValue::CqlBoolean(o) => CqlValue::CqlBoolean(*o),
        CqlValue::CqlCounter(o) => CqlValue::CqlCounter(*o),
        CqlValue::CqlTimestamp(o) => CqlValue::CqlTimestamp(*o),
        CqlValue::CqlBlob(o) => CqlValue::CqlBlob(o.clone()),
        CqlValue::CqlUuid(o) => CqlValue::CqlUuid(o.clone()),
        CqlValue::CqlTimeUuid(o) => CqlValue::CqlTimeUuid(o.clone()),
        CqlValue::CqlVarint(o) => CqlValue::CqlVarint(o.clone()),
        CqlValue::CqlInet(o) => CqlValue::CqlInet(*o),
        _ => panic!("not a single value"),
    }
}

#[test]
fn null_is_distinct_from_empty() {
    let mut null_buf: Vec<u8> = Vec::new();
    encode_value_single(&mut null_buf, &CqlValue::CqlBlob(None), CqlBytesSize::Cqli32).unwrap();
    let mut empty_buf: Vec<u8> = Vec::new();
    encode_value_single(&mut empty_buf, &CqlValue::CqlBlob(Some(vec![])), CqlBytesSize::Cqli32)
        .unwrap();
    assert_ne!(null_buf, empty_buf);
    assert_eq!(null_buf, vec![0xFF, 0xFF, 0xFF, 0xFF]);
    assert_eq!(empty_buf, vec![0x00, 0x00, 0x00, 0x00]);

    let mut rd = CqlReader::new(null_buf);
    let back = rd.read_cql_value_single(CqlValueType::ColumnBlob, CqlBytesSize::Cqli32).unwrap();
    assert_eq!(back, CqlValue::CqlBlob(None));
    let mut rd2 = CqlReader::new(empty_buf);
    let back2 = rd2.read_cql_value_single(CqlValueType::ColumnBlob, CqlBytesSize::Cqli32).unwrap();
    assert_eq!(back2, CqlValue::CqlBlob(Some(vec![])));
}

#[test]
fn uuid_of_wrong_length_is_rejected() {
    let mut buf: Vec<u8> = Vec::new();
    let bad = CqlValue::CqlUuid(Some(vec![1, 2, 3]));
    let r = encode_value_single(&mut buf, &bad, CqlBytesSize::Cqli32);
    assert!(matches!(r, Err(e) if e.kind == RCErrorType::SerializeError));

    // 3 payload bytes under a uuid column fail decoding too.
    let raw = vec![0x00, 0x00, 0x00, 0x03, 1, 2, 3];
    let mut rd = CqlReader::new(raw);
    let r2 = rd.read_cql_value_single(CqlValueType::ColumnUuid, CqlBytesSize::Cqli32);
    assert!(matches!(r2, Err(e) if e.kind == RCErrorType::ReadError));
}

#[test]
fn empty_varint_is_rejected() {
    let raw = vec![0x00, 0x00, 0x00, 0x00];
    let mut rd = CqlReader::new(raw);
    let r = rd.read_cql_value_single(CqlValueType::ColumnVarint, CqlBytesSize::Cqli32);
    assert!(matches!(r, Err(e) if e.kind == RCErrorType::ReadError));
}

#[test]
fn unknown_value_cannot_be_encoded() {
    let mut buf: Vec<u8> = Vec::new();
    let r = encode_value_single(&mut buf, &CqlValue::CqlUnknown, CqlBytesSize::Cqli32);
    assert!(matches!(r, Err(e) if e.kind == RCErrorType::SerializeError));
}

#[test]
fn oversized_short_string_is_a_serialize_error() {
    let big = "a".repeat(0x8000);
    let req = CqlRequest {
        version: 3,
        flags: 0,
        stream: 1,
        opcode: OpcodeRequest::OpcodeStartup,
        body: CqlRequestBody::RequestStartup(CqlStringMap {
            pairs: vec![CqlPair { key: big, value: "v".to_string() }],
        }),
    };
    let r = encode_request(&req);
    assert!(matches!(r, Err(e) if e.kind == RCErrorType::SerializeError));
}

#[test]
fn mismatched_opcode_is_a_serialize_error() {
    let req = CqlRequest {
        version: 3,
        flags: 0,
        stream: 1,
        opcode: OpcodeRequest::OpcodeQuery,
        body: CqlRequestBody::RequestOptions,
    };
    let r = encode_request(&req);
    assert!(matches!(r, Err(e) if e.kind == RCErrorType::SerializeError));
}

#[test]
fn stream_id_out_of_range_for_v2_is_rejected() {
    let req = CqlRequest {
        version: 2,
        flags: 0,
        stream: 300,
        opcode: OpcodeRequest::OpcodeOptions,
        body: CqlRequestBody::RequestOptions,
    };
    let r = encode_request(&req);
    assert!(matches!(r, Err(e) if e.kind == RCErrorType::SerializeError));
}

#[test]
fn decode_request_rejects_unknown_opcode() {
    // version, flags, 2-byte stream, an unassigned opcode, empty body
    let bytes = vec![0x03, 0x00, 0x00, 0x01, 0x7E, 0x00, 0x00, 0x00, 0x00];
    let r = decode_request(&bytes, 3, &no_ctx());
    assert!(matches!(r, Err(e) if e.kind == RCErrorType::ReadError));
}

#[test]
fn decode_request_rejects_value_count_mismatch() {
    let req = CqlRequest {
        version: 3,
        flags: 0,
        stream: 1,
        opcode: OpcodeRequest::OpcodeExecute,
        body: CqlRequestBody::RequestExec(
            vec![0x01],
            vec![CqlValue::CqlInt(Some(1))],
            Consistency::One,
            1,
        ),
    };
    let bytes = encode_request(&req).unwrap();
    // Declaring two parameter types for a one-value execute fails.
    let ctx = vec![vec![CqlValueType::ColumnInt, CqlValueType::ColumnInt]];
    let r = decode_request(&bytes, 3, &ctx);
    assert!(matches!(r, Err(e) if e.kind == RCErrorType::ReadError));
}

#[test]
fn negative_stream_id_roundtrips_on_both_widths() {
    for version in [2u8, 3u8] {
        let req = CqlRequest {
            version,
            flags: 0,
            stream: -1,
            opcode: OpcodeRequest::OpcodeOptions,
            body: CqlRequestBody::RequestOptions,
        };
        let back = roundtrip(&req, version, &no_ctx());
        assert_eq!(back.stream, -1);
    }
}
