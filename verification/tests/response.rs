//! Decoding tests of response frames: results, rows with collections,
//! events, and the version-dependent points.

use cql::def::{
    CqlBytesSize, CqlEvent, CqlIpAddr, CqlResponseBody, CqlSocketAddr, CqlValue, CqlValueType,
    OpcodeResponse, SchemaChangeOptions, SchemaChangeType, StatusChangeType,
};
use cql::error::RCErrorType;
use cql::reader::CqlReader;

fn be2(x: u16) -> Vec<u8> {
    x.to_be_bytes().to_vec()
}

fn be4(x: u32) -> Vec<u8> {
    x.to_be_bytes().to_vec()
}

fn short_str(s: &str) -> Vec<u8> {
    let mut out = be2(s.len() as u16);
    out.extend_from_slice(s.as_bytes());
    out
}

fn frame_v3(opcode: u8, stream: u16, body: &[u8]) -> Vec<u8> {
    let mut out = vec![0x83, 0x00];
    out.extend_from_slice(&stream.to_be_bytes());
    out.push(opcode);
    out.extend_from_slice(&(body.len() as u32).to_be_bytes());
    out.extend_from_slice(body);
    out
}

fn frame_v2(opcode: u8, stream: u8, body: &[u8]) -> Vec<u8> {
    let mut out = vec![0x82, 0x00, stream, opcode];
    out.extend_from_slice(&(body.len() as u32).to_be_bytes());
    out.extend_from_slice(body);
    out
}

#[test]
fn decode_ready() {
    let bytes = frame_v3(0x02, 1, &[]);
    let mut rd = CqlReader::new(bytes);
    let resp = rd.read_cql_response(3).unwrap();
    assert_eq!(resp.opcode, OpcodeResponse::OpcodeReady);
    assert_eq!(resp.body, CqlResponseBody::ResponseReady);
    assert_eq!(resp.stream, 1);
}

#[test]
fn decode_error_body() {
    let mut body = be4(0x1000);
    body.extend_from_slice(&short_str("bad"));
    let bytes = frame_v3(0x00, 1, &body);
    let mut rd = CqlReader::new(bytes);
    let resp = rd.read_cql_response(3).unwrap();
    assert_eq!(resp.body, CqlResponseBody::ResponseError(0x1000, "bad".to_string()));
}

#[test]
fn decode_authenticate() {
    let body = short_str("org.auth.Password");
    let bytes = frame_v3(0x03, 0, &body);
    let mut rd = CqlReader::new(bytes);
    let resp = rd.read_cql_response(3).unwrap();
    assert_eq!(resp.body, CqlResponseBody::ResponseAuth("org.auth.Password".to_string()));
}

#[test]
fn decode_supported_as_unknown_result() {
    let bytes = frame_v3(0x06, 0, &[1, 2, 3]);
    let mut rd = CqlReader::new(bytes);
    let resp = rd.read_cql_response(3).unwrap();
    assert_eq!(resp.body, CqlResponseBody::ResultUnknown);
}

#[test]
fn decode_unknown_opcode_is_a_read_error() {
    let bytes = frame_v3(0x7E, 0, &[]);
    let mut rd = CqlReader::new(bytes);
    let r = rd.read_cql_response(3);
    assert!(matches!(r, Err(e) if e.kind == RCErrorType::ReadError));
}

#[test]
fn decode_set_keyspace_result() {
    let mut body = be4(3);
    body.extend_from_slice(&short_str("ks"));
    let bytes = frame_v3(0x08, 2, &body);
    let mut rd = CqlReader::new(bytes);
    let resp = rd.read_cql_response(3).unwrap();
    assert_eq!(resp.body, CqlResponseBody::ResultKeyspace("ks".to_string()));
}

fn rows_body_list_int(count_width: CqlBytesSize) -> Vec<u8> {
    // Result kind Rows; global table spec; one list<int> column; one row
    // whose value holds [42, 7].
    let mut body = be4(2);
    body.extend_from_slice(&be4(1)); // flags: global table spec
    body.extend_from_slice(&be4(1)); // one column
    body.extend_from_slice(&short_str("k"));
    body.extend_from_slice(&short_str("t"));
    body.extend_from_slice(&short_str("c"));
    body.extend_from_slice(&be2(0x0020)); // list
    body.extend_from_slice(&be2(0x0009)); // of int
    body.extend_from_slice(&be4(1)); // one row
    let mut inner: Vec<u8> = Vec::new();
    match count_width {
        CqlBytesSize::Cqli32 => {
            inner.extend_from_slice(&be4(2));
            inner.extend_from_slice(&be4(4));
            inner.extend_from_slice(&be4(42));
            inner.extend_from_slice(&be4(4));
            inner.extend_from_slice(&be4(7));
        },
        _ => {
            inner.extend_from_slice(&be2(2));
            inner.extend_from_slice(&be2(4));
            inner.extend_from_slice(&be4(42));
            inner.extend_from_slice(&be2(4));
            inner.extend_from_slice(&be4(7));
        },
    }
    body.extend_from_slice(&be4(inner.len() as u32));
    body.extend_from_slice(&inner);
    body
}

#[test]
fn decode_rows_with_list_of_int_v3() {
    let body = rows_body_list_int(CqlBytesSize::Cqli32);
    let bytes = frame_v3(0x08, 4, &body);
    let mut rd = CqlReader::new(bytes);
    let resp = rd.read_cql_response(3).unwrap();
    match resp.body {
        CqlResponseBody::ResultRows(rows) => {
            assert_eq!(rows.metadata.column_count, 1);
            assert_eq!(rows.metadata.keyspace, "k".to_string());
            assert_eq!(rows.metadata.row_metadata[0].col_type, CqlValueType::ColumnList);
            assert_eq!(rows.metadata.row_metadata[0].col_type_aux1, CqlValueType::ColumnInt);
            assert_eq!(rows.rows.len(), 1);
            assert_eq!(
                rows.rows[0].cols[0],
                CqlValue::CqlList(Some(vec![
                    CqlValue::CqlInt(Some(42)),
                    CqlValue::CqlInt(Some(7)),
                ]))
            );
        },
        other => panic!("unexpected body {:?}", other),
    }
}

#[test]
fn decode_rows_with_list_of_int_v2() {
    let body = rows_body_list_int(CqlBytesSize::Cqli16);
    let bytes = frame_v2(0x08, 4, &body);
    let mut rd = CqlReader::new(bytes);
    let resp = rd.read_cql_response(2).unwrap();
    match resp.body {
        CqlResponseBody::ResultRows(rows) => {
            assert_eq!(
                rows.rows[0].cols[0],
                CqlValue::CqlList(Some(vec![
                    CqlValue::CqlInt(Some(42)),
                    CqlValue::CqlInt(Some(7)),
                ]))
            );
        },
        other => panic!("unexpected body {:?}", other),
    }
}

#[test]
fn version_safety_v2_rows_fail_under_v3_sizing() {
    // A rows body laid out with 2-byte collection sizing, decoded as if it
    // were revision 3: the 4-byte element count swallows unrelated bytes
    // and the decode fails with a read error.
    let body = rows_body_list_int(CqlBytesSize::Cqli16);
    let bytes = frame_v3(0x08, 4, &body);
    let mut rd = CqlReader::new(bytes);
    let r = rd.read_cql_response(3);
    assert!(matches!(r, Err(e) if e.kind == RCErrorType::ReadError));
}

#[test]
fn decode_prepared_result_v2_carries_result_metadata() {
    // Prepared result: id, parameter metadata, and (v2 and later) result
    // metadata.
    let mut body = be4(4);
    body.extend_from_slice(&be2(3)); // id length
    body.extend_from_slice(&[0xAA, 0xBB, 0xCC]);
    for _ in 0..2 {
        body.extend_from_slice(&be4(1)); // flags: global
        body.extend_from_slice(&be4(0)); // no columns
        body.extend_from_slice(&short_str("k"));
        body.extend_from_slice(&short_str("t"));
    }
    let bytes = frame_v2(0x08, 3, &body);
    let mut rd = CqlReader::new(bytes);
    let resp = rd.read_cql_response(2).unwrap();
    match resp.body {
        CqlResponseBody::ResultPrepared(p) => {
            assert_eq!(p.id, vec![0xAA, 0xBB, 0xCC]);
            assert_eq!(p.meta.keyspace, "k".to_string());
            assert!(p.meta_result.is_some());
        },
        other => panic!("unexpected body {:?}", other),
    }
}

#[test]
fn decode_prepared_result_v1_has_no_result_metadata() {
    let mut body = be4(4);
    body.extend_from_slice(&be2(1));
    body.extend_from_slice(&[0x42]);
    body.extend_from_slice(&be4(1));
    body.extend_from_slice(&be4(0));
    body.extend_from_slice(&short_str("k"));
    body.extend_from_slice(&short_str("t"));
    let mut bytes = vec![0x81, 0x00, 0x01, 0x08];
    bytes.extend_from_slice(&(body.len() as u32).to_be_bytes());
    bytes.extend_from_slice(&body);
    let mut rd = CqlReader::new(bytes);
    let resp = rd.read_cql_response(1).unwrap();
    match resp.body {
        CqlResponseBody::ResultPrepared(p) => {
            assert_eq!(p.id, vec![0x42]);
            assert!(p.meta_result.is_none());
        },
        other => panic!("unexpected body {:?}", other),
    }
}

fn status_change_body(kind: &str, a: u8, b: u8, c: u8, d: u8, port: u32) -> Vec<u8> {
    let mut body = short_str("STATUS_CHANGE");
    body.extend_from_slice(&short_str(kind));
    body.push(4);
    body.extend_from_slice(&[a, b, c, d]);
    body.extend_from_slice(&be4(port));
    body
}

#[test]
fn decode_status_change_event() {
    let body = status_change_body("DOWN", 10, 0, 0, 7, 9042);
    let bytes = frame_v3(0x0C, 0xFFFF, &body);
    let mut rd = CqlReader::new(bytes);
    let resp = rd.read_cql_response(3).unwrap();
    assert_eq!(resp.stream, -1);
    assert_eq!(
        resp.body,
        CqlResponseBody::ResponseEvent(CqlEvent::StatusChange(
            StatusChangeType::Down,
            CqlSocketAddr { ip: CqlIpAddr::V4(10, 0, 0, 7), port: 9042 },
        ))
    );
}

#[test]
fn decode_topology_change_event() {
    let mut body = short_str("TOPOLOGY_CHANGE");
    body.extend_from_slice(&short_str("NEW_NODE"));
    body.push(4);
    body.extend_from_slice(&[192, 168, 1, 2]);
    body.extend_from_slice(&be4(9042));
    let bytes = frame_v3(0x0C, 0xFFFF, &body);
    let mut rd = CqlReader::new(bytes);
    let resp = rd.read_cql_response(3).unwrap();
    assert_eq!(
        resp.body,
        CqlResponseBody::ResponseEvent(CqlEvent::TopologyChange(
            cql::def::TopologyChangeType::NewNode,
            CqlSocketAddr { ip: CqlIpAddr::V4(192, 168, 1, 2), port: 9042 },
        ))
    );
}

#[test]
fn decode_schema_change_event() {
    let mut body = short_str("SCHEMA_CHANGE");
    body.extend_from_slice(&short_str("CREATED"));
    body.extend_from_slice(&short_str("TABLE"));
    body.extend_from_slice(&short_str("ks"));
    body.extend_from_slice(&short_str("tbl"));
    let bytes = frame_v3(0x0C, 0xFFFF, &body);
    let mut rd = CqlReader::new(bytes);
    let resp = rd.read_cql_response(3).unwrap();
    assert_eq!(
        resp.body,
        CqlResponseBody::ResponseEvent(CqlEvent::SchemaChange(
            SchemaChangeType::Created,
            SchemaChangeOptions::Table("ks".to_string(), "tbl".to_string()),
        ))
    );
}

#[test]
fn decode_unknown_event_kind_is_a_read_error() {
    let body = short_str("SOMETHING_ELSE");
    let bytes = frame_v3(0x0C, 0xFFFF, &body);
    let mut rd = CqlReader::new(bytes);
    let r = rd.read_cql_response(3);
    assert!(matches!(r, Err(e) if e.kind == RCErrorType::ReadError));
}

#[test]
fn decode_invalid_utf8_is_a_read_error() {
    let mut body = be2(2).to_vec();
    body.extend_from_slice(&[0xFF, 0xFE]);
    let bytes = frame_v3(0x03, 0, &body);
    let mut rd = CqlReader::new(bytes);
    let r = rd.read_cql_response(3);
    assert!(matches!(r, Err(e) if e.kind == RCErrorType::ReadError));
}

#[test]
fn decode_unknown_result_kind_is_a_read_error() {
    let body = be4(99);
    let bytes = frame_v3(0x08, 0, &body);
    let mut rd = CqlReader::new(bytes);
    let r = rd.read_cql_response(3);
    assert!(matches!(r, Err(e) if e.kind == RCErrorType::ReadError));
}

#[test]
fn decode_short_frame_is_a_read_error() {
    let bytes = vec![0x83, 0x00, 0x00];
    let mut rd = CqlReader::new(bytes);
    let r = rd.read_cql_response(3);
    assert!(matches!(r, Err(e) if e.kind == RCErrorType::ReadError));
}

#[test]
fn stream_id_width_depends_on_version() {
    // One byte of stream id below revision 3, two bytes from it on.
    let ready = frame_v2(0x02, 0x7F, &[]);
    let mut rd = CqlReader::new(ready);
    let resp = rd.read_cql_response(2).unwrap();
    assert_eq!(resp.stream, 0x7F);

    let ready3 = frame_v3(0x02, 0x0102, &[]);
    let mut rd3 = CqlReader::new(ready3);
    let resp3 = rd3.read_cql_response(3).unwrap();
    assert_eq!(resp3.stream, 0x0102);
}
