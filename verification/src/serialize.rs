//! The request encoder: spec-level byte encodings of requests and typed
//! values, the executable encoder proven to produce exactly those bytes,
//! and the companion request parser used to state and prove the
//! round-trip laws.

use vstd::prelude::*;
use vstd::utf8::encode_utf8;

use crate::def::{
    CqlBytesSize, CqlIpAddr, CqlPair, CqlRequest, CqlRequestBody,
    CqlStringMap, CqlValue, CqlValueType, OpcodeRequest, Query, QueryV, RequestBodyV, RequestV,
    ValueV, opcode_request_value, queries_model, query_model, request_body_model, request_model,
    spec_batch_type_value, spec_consistency_value, spec_opcode_request_value, str_list_model,
    string_map_model, value_model, values_model, batch_type_value, consistency_value,
};
use crate::error::{RCError, RCErrorType, RCResult};
use crate::strutil::str_bytes_vec;
use crate::def::{opcode_request_from, batch_type_from, consistency_from};
use crate::wire::{be2, be4, be8, u16_of_i16, u32_of_i32, u64_of_i64};

verus! {

/// The bytes of a length field of the given width.
pub open spec fn enc_len(n: int, sz: CqlBytesSize) -> Seq<u8> {
    match sz {
        CqlBytesSize::Cqli8 => seq![n as u8],
        CqlBytesSize::Cqli16 => be2(u16_of_i16(n as i16)),
        CqlBytesSize::Cqli32 => be4(u32_of_i32(n as i32)),
    }
}

/// Whether a payload length can be carried by a length field of the given
/// width without turning negative.
pub open spec fn len_fits(n: int, sz: CqlBytesSize) -> bool {
    match sz {
        CqlBytesSize::Cqli8 => 0 <= n <= 0xFF,
        CqlBytesSize::Cqli16 => 0 <= n <= 0x7FFF,
        CqlBytesSize::Cqli32 => 0 <= n <= 0x7FFF_FFFF,
    }
}

/// The wire bytes of an address.
pub open spec fn ip_bytes(ip: CqlIpAddr) -> Seq<u8> {
    match ip {
        CqlIpAddr::V4(a, b, c, d) => seq![a, b, c, d],
        CqlIpAddr::V6(s0, s1, s2, s3, s4, s5, s6, s7) => be2(s0) + be2(s1) + be2(s2) + be2(s3)
            + be2(s4) + be2(s5) + be2(s6) + be2(s7),
    }
}

/// True of the null value of any type.
pub open spec fn value_is_null(v: ValueV) -> bool {
    match v {
        ValueV::VAscii(o) => o is None,
        ValueV::VVarchar(o) => o is None,
        ValueV::VText(o) => o is None,
        ValueV::VInt(o) => o is None,
        ValueV::VBigInt(o) => o is None,
        ValueV::VFloat(o) => o is None,
        ValueV::VDouble(o) => o is None,
        ValueV::VBoolean(o) => o is None,
        ValueV::VCounter(o) => o is None,
        ValueV::VTimestamp(o) => o is None,
        ValueV::VBlob(o) => o is None,
        ValueV::VUuid(o) => o is None,
        ValueV::VTimeUuid(o) => o is None,
        ValueV::VVarint(o) => o is None,
        ValueV::VInet(o) => o is None,
        ValueV::VList(o) => o is None,
        ValueV::VSet(o) => o is None,
        ValueV::VMap(o) => o is None,
        ValueV::VUnknown => false,
    }
}

/// The column type a value belongs to.
pub open spec fn type_of_value(v: ValueV) -> CqlValueType {
    match v {
        ValueV::VAscii(_) => CqlValueType::ColumnASCII,
        ValueV::VVarchar(_) => CqlValueType::ColumnVarChar,
        ValueV::VText(_) => CqlValueType::ColumnText,
        ValueV::VInt(_) => CqlValueType::ColumnInt,
        ValueV::VBigInt(_) => CqlValueType::ColumnBigInt,
        ValueV::VFloat(_) => CqlValueType::ColumnFloat,
        ValueV::VDouble(_) => CqlValueType::ColumnDouble,
        ValueV::VBoolean(_) => CqlValueType::ColumnBoolean,
        ValueV::VCounter(_) => CqlValueType::ColumnCounter,
        ValueV::VTimestamp(_) => CqlValueType::ColumnTimestamp,
        ValueV::VBlob(_) => CqlValueType::ColumnBlob,
        ValueV::VUuid(_) => CqlValueType::ColumnUuid,
        ValueV::VTimeUuid(_) => CqlValueType::ColumnTimeUuid,
        ValueV::VVarint(_) => CqlValueType::ColumnVarint,
        ValueV::VInet(_) => CqlValueType::ColumnInet,
        ValueV::VList(_) => CqlValueType::ColumnList,
        ValueV::VSet(_) => CqlValueType::ColumnSet,
        ValueV::VMap(_) => CqlValueType::ColumnMap,
        ValueV::VUnknown => CqlValueType::ColumnUnknown,
    }
}

/// The payload bytes of a non-null single value.
pub open spec fn spec_value_payload(v: ValueV) -> Seq<u8> {
    match v {
        ValueV::VAscii(Some(s)) => encode_utf8(s),
        ValueV::VVarchar(Some(s)) => encode_utf8(s),
        ValueV::VText(Some(s)) => encode_utf8(s),
        ValueV::VInt(Some(x)) => be4(u32_of_i32(x)),
        ValueV::VBigInt(Some(x)) => be8(u64_of_i64(x)),
        ValueV::VCounter(Some(x)) => be8(u64_of_i64(x)),
        ValueV::VTimestamp(Some(x)) => be8(x),
        ValueV::VFloat(Some(x)) => be4(x),
        ValueV::VDouble(Some(x)) => be8(x),
        ValueV::VBoolean(Some(x)) => if x {
            seq![1u8]
        } else {
            seq![0u8]
        },
        ValueV::VBlob(Some(pl)) => pl,
        ValueV::VUuid(Some(pl)) => pl,
        ValueV::VTimeUuid(Some(pl)) => pl,
        ValueV::VVarint(Some(pl)) => pl,
        ValueV::VInet(Some(ip)) => ip_bytes(ip),
        _ => Seq::empty(),
    }
}

/// The bytes of one single value: its length field, then its payload; a
/// null value is the length -1 alone.
pub open spec fn spec_encode_value_single(v: ValueV, sz: CqlBytesSize) -> Seq<u8> {
    if value_is_null(v) {
        enc_len(-1, sz)
    } else {
        enc_len(spec_value_payload(v).len() as int, sz) + spec_value_payload(v)
    }
}

/// Whether a value has a shape the wire can carry as a single value:
/// collections and unknown values are excluded, a uuid must hold 16
/// bytes, a varint at least one.
pub open spec fn value_shape_ok(v: ValueV) -> bool {
    match v {
        ValueV::VUnknown => false,
        ValueV::VList(_) => false,
        ValueV::VSet(_) => false,
        ValueV::VMap(_) => false,
        ValueV::VUuid(Some(pl)) => pl.len() == 16,
        ValueV::VTimeUuid(Some(pl)) => pl.len() == 16,
        ValueV::VVarint(Some(pl)) => 0 < pl.len(),
        _ => true,
    }
}

/// Whether a single value can be encoded with the given length width and
/// decoded back.
pub open spec fn value_single_encodable(v: ValueV, sz: CqlBytesSize) -> bool {
    value_shape_ok(v) && (value_is_null(v) || len_fits(spec_value_payload(v).len() as int, sz))
}

/// The bytes of a sequence of single values, in order.
pub open spec fn spec_encode_values(items: Seq<ValueV>, sz: CqlBytesSize) -> Seq<u8>
    decreases items.len(),
{
    if items.len() == 0 {
        Seq::empty()
    } else {
        spec_encode_value_single(items[0], sz) + spec_encode_values(items.drop_first(), sz)
    }
}

/// The bytes of a sequence of map entries, in order.
pub open spec fn spec_encode_pairs(es: Seq<(ValueV, ValueV)>, sz: CqlBytesSize) -> Seq<u8>
    decreases es.len(),
{
    if es.len() == 0 {
        Seq::empty()
    } else {
        spec_encode_value_single(es[0].0, sz) + spec_encode_value_single(es[0].1, sz)
            + spec_encode_pairs(es.drop_first(), sz)
    }
}

/// The bytes of one column value in a rows result: single values carry a
/// 4-byte length; a collection carries a 4-byte total length, an element
/// count in the collection width, then its elements.
pub open spec fn spec_encode_value(v: ValueV, sz: CqlBytesSize) -> Seq<u8> {
    match v {
        ValueV::VList(None) => enc_len(-1, CqlBytesSize::Cqli32),
        ValueV::VSet(None) => enc_len(-1, CqlBytesSize::Cqli32),
        ValueV::VMap(None) => enc_len(-1, CqlBytesSize::Cqli32),
        ValueV::VList(Some(items)) => {
            let inner = enc_len(items.len() as int, sz) + spec_encode_values(items, sz);
            enc_len(inner.len() as int, CqlBytesSize::Cqli32) + inner
        },
        ValueV::VSet(Some(items)) => {
            let inner = enc_len(items.len() as int, sz) + spec_encode_values(items, sz);
            enc_len(inner.len() as int, CqlBytesSize::Cqli32) + inner
        },
        ValueV::VMap(Some(es)) => {
            let inner = enc_len(es.len() as int, sz) + spec_encode_pairs(es, sz);
            enc_len(inner.len() as int, CqlBytesSize::Cqli32) + inner
        },
        _ => spec_encode_value_single(v, CqlBytesSize::Cqli32),
    }
}

/// Whether every value of a sequence is a single value of the element type
/// `t` and can be encoded with the given width.
pub open spec fn values_encodable(items: Seq<ValueV>, t: CqlValueType, sz: CqlBytesSize) -> bool {
    forall|i: int|
        0 <= i < items.len() ==> value_single_encodable(#[trigger] items[i], sz) && type_of_value(
            items[i],
        ) == t
}

/// Whether every entry of a map can be encoded with the given width, with
/// key type `kt` and value type `vt`.
pub open spec fn pairs_encodable(
    es: Seq<(ValueV, ValueV)>,
    kt: CqlValueType,
    vt: CqlValueType,
    sz: CqlBytesSize,
) -> bool {
    forall|i: int|
        0 <= i < es.len() ==> value_single_encodable((#[trigger] es[i]).0, sz)
            && value_single_encodable(es[i].1, sz) && type_of_value(es[i].0) == kt
            && type_of_value(es[i].1) == vt
}

/// The bytes of a short string: a 2-byte length, then UTF-8.
pub open spec fn enc_short_str(s: Seq<char>) -> Seq<u8> {
    be2(encode_utf8(s).len() as u16) + encode_utf8(s)
}

/// The bytes of a long string: a 4-byte length, then UTF-8.
pub open spec fn enc_long_str(s: Seq<char>) -> Seq<u8> {
    be4(encode_utf8(s).len() as u32) + encode_utf8(s)
}

/// The bytes of short bytes: a 2-byte length, then the payload.
pub open spec fn enc_short_bytes(b: Seq<u8>) -> Seq<u8> {
    be2(b.len() as u16) + b
}

/// The bytes of a string map: a 2-byte pair count, then each key and value
/// as short strings.
pub open spec fn spec_encode_string_map(pairs: Seq<(Seq<char>, Seq<char>)>) -> Seq<u8>
    decreases pairs.len(),
{
    if pairs.len() == 0 {
        Seq::empty()
    } else {
        enc_short_str(pairs[0].0) + enc_short_str(pairs[0].1) + spec_encode_string_map(
            pairs.drop_first(),
        )
    }
}

/// The bytes of a string list body, without its count.
pub open spec fn spec_encode_str_list(ss: Seq<Seq<char>>) -> Seq<u8>
    decreases ss.len(),
{
    if ss.len() == 0 {
        Seq::empty()
    } else {
        enc_short_str(ss[0]) + spec_encode_str_list(ss.drop_first())
    }
}

/// The collection width used for bound values of the given protocol
/// revision.
pub open spec fn spec_value_size(version: u8) -> CqlBytesSize {
    if version >= 3 {
        CqlBytesSize::Cqli32
    } else {
        CqlBytesSize::Cqli16
    }
}

/// The bytes of one batch statement: a kind byte, the query string or
/// prepared id, then a 2-byte bound value count and the values.
pub open spec fn spec_encode_query(q: QueryV, sz: CqlBytesSize) -> Seq<u8> {
    match q {
        QueryV::QueryStrV(s, vs) => seq![0u8] + enc_long_str(s) + be2(vs.len() as u16)
            + spec_encode_values(vs, sz),
        QueryV::QueryPreparedV(id, vs) => seq![1u8] + enc_short_bytes(id) + be2(vs.len() as u16)
            + spec_encode_values(vs, sz),
    }
}

/// The bytes of a sequence of batch statements, in order.
pub open spec fn spec_encode_queries(qs: Seq<QueryV>, sz: CqlBytesSize) -> Seq<u8>
    decreases qs.len(),
{
    if qs.len() == 0 {
        Seq::empty()
    } else {
        spec_encode_query(qs[0], sz) + spec_encode_queries(qs.drop_first(), sz)
    }
}

/// The bytes of a request body.
pub open spec fn spec_encode_request_body(body: RequestBodyV, version: u8) -> Seq<u8> {
    let sz = spec_value_size(version);
    match body {
        RequestBodyV::StartupV(pairs) => be2(pairs.len() as u16) + spec_encode_string_map(pairs),
        RequestBodyV::CredV(ss) => be2(ss.len() as u16) + spec_encode_str_list(ss),
        RequestBodyV::OptionsV => Seq::empty(),
        RequestBodyV::QueryReqV(s, c, f) => enc_long_str(s) + be2(spec_consistency_value(c)) + seq![
            f,
        ],
        RequestBodyV::PrepareV(s) => enc_long_str(s),
        RequestBodyV::ExecV(id, vs, c, f) => enc_short_bytes(id) + be2(vs.len() as u16)
            + spec_encode_values(vs, sz) + be2(spec_consistency_value(c)) + seq![f],
        RequestBodyV::BatchV(qs, t, c, f) => seq![spec_batch_type_value(t)] + be2(qs.len() as u16)
            + spec_encode_queries(qs, sz) + be2(spec_consistency_value(c)) + seq![f],
        RequestBodyV::RegisterV(ss) => be2(ss.len() as u16) + spec_encode_str_list(ss),
    }
}

/// The header stream bytes: one signed byte below revision 3, two from
/// revision 3 on.
pub open spec fn enc_stream(stream: i16, version: u8) -> Seq<u8> {
    if version >= 3 {
        be2(u16_of_i16(stream))
    } else {
        seq![(u16_of_i16(stream) % 256) as u8]
    }
}

/// The bytes of one whole request frame: version, flags, stream id,
/// opcode, the 4-byte body length, then the body.
pub open spec fn spec_encode_request(r: RequestV) -> Seq<u8> {
    let body = spec_encode_request_body(r.body, r.version);
    seq![r.version, r.flags] + enc_stream(r.stream, r.version) + seq![
        spec_opcode_request_value(r.opcode),
    ] + be4(body.len() as u32) + body
}

/// Whether the opcode field names the body's variant.
pub open spec fn opcode_matches_body(op: OpcodeRequest, body: RequestBodyV) -> bool {
    match body {
        RequestBodyV::StartupV(_) => op == OpcodeRequest::OpcodeStartup,
        RequestBodyV::CredV(_) => op == OpcodeRequest::OpcodeCred,
        RequestBodyV::OptionsV => op == OpcodeRequest::OpcodeOptions,
        RequestBodyV::QueryReqV(_, _, _) => op == OpcodeRequest::OpcodeQuery,
        RequestBodyV::PrepareV(_) => op == OpcodeRequest::OpcodePrepare,
        RequestBodyV::ExecV(_, _, _, _) => op == OpcodeRequest::OpcodeExecute,
        RequestBodyV::BatchV(_, _, _, _) => op == OpcodeRequest::OpcodeBatch,
        RequestBodyV::RegisterV(_) => op == OpcodeRequest::OpcodeRegister,
    }
}

/// Whether a short string fits its 2-byte signed length field.
pub open spec fn short_str_ok(s: Seq<char>) -> bool {
    encode_utf8(s).len() <= 0x7FFF
}

/// Whether a long string fits its 4-byte signed length field.
pub open spec fn long_str_ok(s: Seq<char>) -> bool {
    encode_utf8(s).len() <= 0x7FFF_FFFF
}

/// Whether one batch statement can be encoded with the given width.
pub open spec fn query_encodable(q: QueryV, sz: CqlBytesSize) -> bool {
    match q {
        QueryV::QueryStrV(s, vs) => long_str_ok(s) && vs.len() <= 0xFFFF && (forall|i: int|
            0 <= i < vs.len() ==> value_single_encodable(#[trigger] vs[i], sz)),
        QueryV::QueryPreparedV(id, vs) => id.len() <= 0x7FFF && vs.len() <= 0xFFFF && (forall|
            i: int,
        |
            0 <= i < vs.len() ==> value_single_encodable(#[trigger] vs[i], sz)),
    }
}

/// Whether a request body can be encoded for the given protocol revision.
pub open spec fn body_encodable(body: RequestBodyV, version: u8) -> bool {
    let sz = spec_value_size(version);
    match body {
        RequestBodyV::StartupV(pairs) => pairs.len() <= 0xFFFF && (forall|i: int|
            0 <= i < pairs.len() ==> short_str_ok((#[trigger] pairs[i]).0) && short_str_ok(
                pairs[i].1,
            )),
        RequestBodyV::CredV(ss) => ss.len() <= 0xFFFF && (forall|i: int|
            0 <= i < ss.len() ==> short_str_ok(#[trigger] ss[i])),
        RequestBodyV::OptionsV => true,
        RequestBodyV::QueryReqV(s, _, _) => long_str_ok(s),
        RequestBodyV::PrepareV(s) => long_str_ok(s),
        RequestBodyV::ExecV(id, vs, _, _) => id.len() <= 0x7FFF && vs.len() <= 0xFFFF && (forall|
            i: int,
        |
            0 <= i < vs.len() ==> value_single_encodable(#[trigger] vs[i], sz)),
        RequestBodyV::BatchV(qs, _, _, _) => qs.len() <= 0xFFFF && (forall|i: int|
            0 <= i < qs.len() ==> query_encodable(#[trigger] qs[i], sz)),
        RequestBodyV::RegisterV(ss) => ss.len() <= 0xFFFF && (forall|i: int|
            0 <= i < ss.len() ==> short_str_ok(#[trigger] ss[i])),
    }
}

/// Whether a whole request frame can be encoded: a supported revision, a
/// stream id in range for it, an opcode naming the body, and a body whose
/// length fits the header field.
pub open spec fn request_encodable(r: RequestV) -> bool {
    1 <= r.version <= 3 && (r.version < 3 ==> -128 <= r.stream <= 127) && opcode_matches_body(
        r.opcode,
        r.body,
    ) && body_encodable(r.body, r.version) && spec_encode_request_body(r.body, r.version).len()
        <= 0x7FFF_FFFF
}

/// The unsigned carrier of a signed 16-bit value.
pub fn u16_from_i16(x: i16) -> (r: u16)
    ensures
        r == u16_of_i16(x),
{
    if x >= 0 {
        x as u16
    } else {
        ((x as i32) + 0x1_0000) as u16
    }
}

/// The unsigned carrier of a signed 32-bit value.
pub fn u32_from_i32(x: i32) -> (r: u32)
    ensures
        r == u32_of_i32(x),
{
    if x >= 0 {
        x as u32
    } else {
        ((x as i64) + 0x1_0000_0000) as u32
    }
}

/// The unsigned carrier of a signed 64-bit value.
pub fn u64_from_i64(x: i64) -> (r: u64)
    ensures
        r == u64_of_i64(x),
{
    if x >= 0 {
        x as u64
    } else {
        (((x as i128) + 0x1_0000_0000_0000_0000) as u64)
    }
}

/// Appends one byte.
pub fn write_u8(buf: &mut Vec<u8>, x: u8)
    ensures
        final(buf)@ == old(buf)@ + seq![x],
{
    buf.push(x);
    proof {
        assert(buf@ =~= old(buf)@ + seq![x]);
    }
}

/// Appends a big-endian 16-bit value.
pub fn write_u16(buf: &mut Vec<u8>, x: u16)
    ensures
        final(buf)@ == old(buf)@ + be2(x),
{
    buf.push((x / 256) as u8);
    buf.push((x % 256) as u8);
    proof {
        assert(buf@ =~= old(buf)@ + be2(x));
    }
}

/// Appends a big-endian 32-bit value.
pub fn write_u32(buf: &mut Vec<u8>, x: u32)
    ensures
        final(buf)@ == old(buf)@ + be4(x),
{
    write_u16(buf, (x / 65536) as u16);
    write_u16(buf, (x % 65536) as u16);
    proof {
        assert(buf@ =~= old(buf)@ + be4(x));
    }
}

/// Appends a big-endian 64-bit value.
pub fn write_u64(buf: &mut Vec<u8>, x: u64)
    ensures
        final(buf)@ == old(buf)@ + be8(x),
{
    write_u32(buf, (x / 0x1_0000_0000) as u32);
    write_u32(buf, (x % 0x1_0000_0000) as u32);
    proof {
        assert(buf@ =~= old(buf)@ + be8(x));
    }
}

/// Appends a byte run.
pub fn write_bytes(buf: &mut Vec<u8>, src: &Vec<u8>)
    ensures
        final(buf)@ == old(buf)@ + src@,
{
    buf.extend_from_slice(src.as_slice());
    proof {
        assert(buf@ =~= old(buf)@ + src@);
    }
}

/// Appends a length field of the given width.
pub fn write_len(buf: &mut Vec<u8>, n: i32, sz: CqlBytesSize)
    requires
        sz == CqlBytesSize::Cqli8 ==> 0 <= n <= 0xFF,
        sz == CqlBytesSize::Cqli16 ==> -0x8000 <= n <= 0x7FFF,
    ensures
        final(buf)@ == old(buf)@ + enc_len(n as int, sz),
{
    match sz {
        CqlBytesSize::Cqli8 => {
            write_u8(buf, n as u8);
        },
        CqlBytesSize::Cqli16 => {
            write_u16(buf, u16_from_i16(n as i16));
        },
        CqlBytesSize::Cqli32 => {
            write_u32(buf, u32_from_i32(n));
        },
    }
}

/// Appends a short string; fails when it does not fit its length field.
pub fn write_short_str(buf: &mut Vec<u8>, s: &str) -> (r: RCResult<()>)
    ensures
        short_str_ok(s@) ==> (r is Ok && final(buf)@ == old(buf)@ + enc_short_str(s@)),
        !short_str_ok(s@) ==> (r matches Err(e) && e.kind == RCErrorType::SerializeError),
{
    let bytes = str_bytes_vec(s);
    if bytes.len() > 0x7FFF {
        return Err(RCError::new("string too long for short string", RCErrorType::SerializeError));
    }
    write_u16(buf, bytes.len() as u16);
    write_bytes(buf, &bytes);
    proof {
        assert(buf@ =~= old(buf)@ + enc_short_str(s@));
    }
    Ok(())
}

/// Appends a long string; fails when it does not fit its length field.
pub fn write_long_str(buf: &mut Vec<u8>, s: &str) -> (r: RCResult<()>)
    ensures
        long_str_ok(s@) ==> (r is Ok && final(buf)@ == old(buf)@ + enc_long_str(s@)),
        !long_str_ok(s@) ==> (r matches Err(e) && e.kind == RCErrorType::SerializeError),
{
    let bytes = str_bytes_vec(s);
    if bytes.len() > 0x7FFF_FFFF {
        return Err(RCError::new("string too long for long string", RCErrorType::SerializeError));
    }
    write_u32(buf, bytes.len() as u32);
    write_bytes(buf, &bytes);
    proof {
        assert(buf@ =~= old(buf)@ + enc_long_str(s@));
    }
    Ok(())
}

/// Appends short bytes; fails when the payload does not fit.
pub fn write_short_bytes(buf: &mut Vec<u8>, b: &Vec<u8>) -> (r: RCResult<()>)
    ensures
        b@.len() <= 0x7FFF ==> (r is Ok && final(buf)@ == old(buf)@ + enc_short_bytes(b@)),
        b@.len() > 0x7FFF ==> (r matches Err(e) && e.kind == RCErrorType::SerializeError),
{
    if b.len() > 0x7FFF {
        return Err(RCError::new("payload too long for short bytes", RCErrorType::SerializeError));
    }
    write_u16(buf, b.len() as u16);
    write_bytes(buf, b);
    proof {
        assert(buf@ =~= old(buf)@ + enc_short_bytes(b@));
    }
    Ok(())
}

/// Builds the payload bytes of a single value; `None` stands for null.
/// Fails on values the wire cannot carry as a single value.
#[verifier::rlimit(100)]
#[verifier::spinoff_prover]
fn value_payload_vec(v: &CqlValue) -> (r: RCResult<Option<Vec<u8>>>)
    ensures
        (match r {
            Ok(o) => value_shape_ok(value_model(*v)) && (match o {
                None => value_is_null(value_model(*v)),
                Some(pl) => !value_is_null(value_model(*v)) && pl@ == spec_value_payload(
                    value_model(*v),
                ),
            }),
            Err(e) => !value_shape_ok(value_model(*v)) && e.kind == RCErrorType::SerializeError,
        }),
{
    match v {
        CqlValue::CqlASCII(o) => match o {
            None => Ok(None),
            Some(s) => Ok(Some(str_bytes_vec(s.as_str()))),
        },
        CqlValue::CqlVarchar(o) => match o {
            None => Ok(None),
            Some(s) => Ok(Some(str_bytes_vec(s.as_str()))),
        },
        CqlValue::CqlText(o) => match o {
            None => Ok(None),
            Some(s) => Ok(Some(str_bytes_vec(s.as_str()))),
        },
        CqlValue::CqlInt(o) => match o {
            None => Ok(None),
            Some(x) => {
                let mut pl: Vec<u8> = Vec::new();
                write_u32(&mut pl, u32_from_i32(*x));
                Ok(Some(pl))
            },
        },
        CqlValue::CqlBigInt(o) => match o {
            None => Ok(None),
            Some(x) => {
                let mut pl: Vec<u8> = Vec::new();
                write_u64(&mut pl, u64_from_i64(*x));
                Ok(Some(pl))
            },
        },
        CqlValue::CqlCounter(o) => match o {
            None => Ok(None),
            Some(x) => {
                let mut pl: Vec<u8> = Vec::new();
                write_u64(&mut pl, u64_from_i64(*x));
                Ok(Some(pl))
            },
        },
        CqlValue::CqlTimestamp(o) => match o {
            None => Ok(None),
            Some(x) => {
                let mut pl: Vec<u8> = Vec::new();
                write_u64(&mut pl, *x);
                Ok(Some(pl))
            },
        },
        CqlValue::CqlFloat(o) => match o {
            None => Ok(None),
            Some(x) => {
                let mut pl: Vec<u8> = Vec::new();
                write_u32(&mut pl, *x);
                Ok(Some(pl))
            },
        },
        CqlValue::CqlDouble(o) => match o {
            None => Ok(None),
            Some(x) => {
                let mut pl: Vec<u8> = Vec::new();
                write_u64(&mut pl, *x);
                Ok(Some(pl))
            },
        },
        CqlValue::CqlBoolean(o) => match o {
            None => Ok(None),
            Some(x) => {
                let mut pl: Vec<u8> = Vec::new();
                if *x {
                    pl.push(1u8);
                } else {
                    pl.push(0u8);
                }
                proof {
                    assert(pl@ =~= spec_value_payload(value_model(*v)));
                }
                Ok(Some(pl))
            },
        },
        CqlValue::CqlBlob(o) => match o {
            None => Ok(None),
            Some(pl) => Ok(Some(vstd::slice::slice_to_vec(pl.as_slice()))),
        },
        CqlValue::CqlUuid(o) => match o {
            None => Ok(None),
            Some(pl) => if pl.len() == 16 {
                Ok(Some(vstd::slice::slice_to_vec(pl.as_slice())))
            } else {
                Err(RCError::new("uuid must hold 16 bytes", RCErrorType::SerializeError))
            },
        },
        CqlValue::CqlTimeUuid(o) => match o {
            None => Ok(None),
            Some(pl) => if pl.len() == 16 {
                Ok(Some(vstd::slice::slice_to_vec(pl.as_slice())))
            } else {
                Err(RCError::new("timeuuid must hold 16 bytes", RCErrorType::SerializeError))
            },
        },
        CqlValue::CqlVarint(o) => match o {
            None => Ok(None),
            Some(pl) => if pl.len() > 0 {
                Ok(Some(vstd::slice::slice_to_vec(pl.as_slice())))
            } else {
                Err(RCError::new("empty varint", RCErrorType::SerializeError))
            },
        },
        CqlValue::CqlInet(o) => match o {
            None => Ok(None),
            Some(ip) => {
                let mut pl: Vec<u8> = Vec::new();
                match ip {
                    CqlIpAddr::V4(a, b, c, d) => {
                        pl.push(*a);
                        pl.push(*b);
                        pl.push(*c);
                        pl.push(*d);
                    },
                    CqlIpAddr::V6(s0, s1, s2, s3, s4, s5, s6, s7) => {
                        write_u16(&mut pl, *s0);
                        write_u16(&mut pl, *s1);
                        write_u16(&mut pl, *s2);
                        write_u16(&mut pl, *s3);
                        write_u16(&mut pl, *s4);
                        write_u16(&mut pl, *s5);
                        write_u16(&mut pl, *s6);
                        write_u16(&mut pl, *s7);
                    },
                }
                proof {
                    assert(pl@ =~= ip_bytes(*ip));
                }
                Ok(Some(pl))
            },
        },
        CqlValue::CqlList(_) => Err(
            RCError::new("collection cannot stand as a single value", RCErrorType::SerializeError),
        ),
        CqlValue::CqlSet(_) => Err(
            RCError::new("collection cannot stand as a single value", RCErrorType::SerializeError),
        ),
        CqlValue::CqlMap(_) => Err(
            RCError::new("collection cannot stand as a single value", RCErrorType::SerializeError),
        ),
        CqlValue::CqlUnknown => Err(
            RCError::new("unknown value cannot be encoded", RCErrorType::SerializeError),
        ),
    }
}

/// Appends one single bound value with its length field.
pub fn encode_value_single(buf: &mut Vec<u8>, v: &CqlValue, sz: CqlBytesSize) -> (r: RCResult<()>)
    requires
        sz == CqlBytesSize::Cqli16 || sz == CqlBytesSize::Cqli32,
    ensures
        value_single_encodable(value_model(*v), sz) ==> (r is Ok && final(buf)@ == old(buf)@
            + spec_encode_value_single(value_model(*v), sz)),
        !value_single_encodable(value_model(*v), sz) ==> (r matches Err(e) && e.kind
            == RCErrorType::SerializeError),
{
    let pl = match value_payload_vec(v) {
        Ok(pl) => pl,
        Err(e) => {
            return Err(e);
        },
    };
    match pl {
        None => {
            write_len(buf, -1, sz);
            Ok(())
        },
        Some(payload) => {
            let limit: usize = match sz {
                CqlBytesSize::Cqli8 => 0xFF,
                CqlBytesSize::Cqli16 => 0x7FFF,
                CqlBytesSize::Cqli32 => 0x7FFF_FFFF,
            };
            if payload.len() > limit {
                return Err(
                    RCError::new("value too long for its length field", RCErrorType::SerializeError),
                );
            }
            write_len(buf, payload.len() as i32, sz);
            write_bytes(buf, &payload);
            Ok(())
        },
    }
}

/// Appends a 2-byte value count and the bound values themselves.
pub fn encode_params(buf: &mut Vec<u8>, vs: &Vec<CqlValue>, sz: CqlBytesSize) -> (r: RCResult<()>)
    requires
        sz == CqlBytesSize::Cqli16 || sz == CqlBytesSize::Cqli32,
    ensures
        (vs@.len() <= 0xFFFF && (forall|i: int|
            0 <= i < vs@.len() ==> value_single_encodable(
                #[trigger] values_model(vs@)[i],
                sz,
            ))) ==> (r is Ok && final(buf)@ == old(buf)@ + be2(vs@.len() as u16)
            + spec_encode_values(values_model(vs@), sz)),
        !(vs@.len() <= 0xFFFF && (forall|i: int|
            0 <= i < vs@.len() ==> value_single_encodable(#[trigger] values_model(vs@)[i], sz)))
            ==> (r matches Err(e) && e.kind == RCErrorType::SerializeError),
{
    if vs.len() > 0xFFFF {
        return Err(RCError::new("too many bound values", RCErrorType::SerializeError));
    }
    let ghost m = values_model(vs@);
    write_u16(buf, vs.len() as u16);
    let ghost base = buf@;
    let n = vs.len();
    let mut i: usize = 0;
    proof {
        assert(m.skip(0) =~= m);
    }
    while i < n
        invariant
            sz == CqlBytesSize::Cqli16 || sz == CqlBytesSize::Cqli32,
            n == vs@.len(),
            i <= n,
            m == values_model(vs@),
            forall|j: int| 0 <= j < i ==> value_single_encodable(#[trigger] m[j], sz),
            base + spec_encode_values(m, sz) == buf@ + spec_encode_values(m.skip(i as int), sz),
        decreases n - i,
    {
        let ghost pre = buf@;
        proof {
            assert(m.skip(i as int).len() == n - i);
            assert(m.skip(i as int)[0] == m[i as int]);
            assert(m[i as int] == value_model(vs@[i as int]));
        }
        match encode_value_single(buf, &vs[i], sz) {
            Ok(_) => {
                i += 1;
                proof {
                    let e0 = spec_encode_value_single(m[i - 1], sz);
                    assert(m.skip(i - 1).drop_first() =~= m.skip(i as int));
                    assert(spec_encode_values(m.skip(i - 1), sz) == e0 + spec_encode_values(
                        m.skip(i as int),
                        sz,
                    ));
                    assert(pre + (e0 + spec_encode_values(m.skip(i as int), sz)) =~= (pre + e0)
                        + spec_encode_values(m.skip(i as int), sz));
                }
            },
            Err(e) => {
                return Err(e);
            },
        }
    }
    proof {
        assert(m.skip(n as int) =~= Seq::<ValueV>::empty());
        assert(spec_encode_values(m.skip(n as int), sz) == Seq::<u8>::empty());
        assert(buf@ + Seq::<u8>::empty() =~= buf@);
        assert(base + spec_encode_values(m, sz) =~= buf@);
    }
    Ok(())
}

/// Appends a 2-byte pair count and the key/value short strings of a
/// string map.
pub fn encode_string_map(buf: &mut Vec<u8>, m: &CqlStringMap) -> (r: RCResult<()>)
    ensures
        (m.pairs@.len() <= 0xFFFF && (forall|i: int|
            0 <= i < m.pairs@.len() ==> short_str_ok((#[trigger] string_map_model(*m)[i]).0)
                && short_str_ok(string_map_model(*m)[i].1))) ==> (r is Ok && final(buf)@ == old(
            buf,
        )@ + be2(m.pairs@.len() as u16) + spec_encode_string_map(string_map_model(*m))),
        !(m.pairs@.len() <= 0xFFFF && (forall|i: int|
            0 <= i < m.pairs@.len() ==> short_str_ok((#[trigger] string_map_model(*m)[i]).0)
                && short_str_ok(string_map_model(*m)[i].1))) ==> (r matches Err(e) && e.kind
            == RCErrorType::SerializeError),
{
    if m.pairs.len() > 0xFFFF {
        return Err(RCError::new("too many string map pairs", RCErrorType::SerializeError));
    }
    let ghost pm = string_map_model(*m);
    write_u16(buf, m.pairs.len() as u16);
    let n = m.pairs.len();
    let mut i: usize = 0;
    proof {
        assert(pm.skip(0) =~= pm);
    }
    while i < n
        invariant
            n == m.pairs@.len(),
            i <= n,
            pm == string_map_model(*m),
            forall|j: int|
                0 <= j < i ==> short_str_ok((#[trigger] pm[j]).0) && short_str_ok(pm[j].1),
            old(buf)@ + be2(n as u16) + spec_encode_string_map(pm) == buf@
                + spec_encode_string_map(pm.skip(i as int)),
        decreases n - i,
    {
        let ghost pre = buf@;
        proof {
            assert(pm.skip(i as int).len() == n - i);
            assert(pm.skip(i as int)[0] == pm[i as int]);
        }
        match write_short_str(buf, m.pairs[i].key.as_str()) {
            Ok(_) => {},
            Err(e) => {
                return Err(e);
            },
        }
        match write_short_str(buf, m.pairs[i].value.as_str()) {
            Ok(_) => {},
            Err(e) => {
                return Err(e);
            },
        }
        i += 1;
        proof {
            let ek = enc_short_str(pm[i - 1].0);
            let ev = enc_short_str(pm[i - 1].1);
            assert(pm.skip(i - 1).drop_first() =~= pm.skip(i as int));
            assert(spec_encode_string_map(pm.skip(i - 1)) == ek + ev + spec_encode_string_map(
                pm.skip(i as int),
            ));
            assert(pre + (ek + ev + spec_encode_string_map(pm.skip(i as int))) =~= ((pre + ek) + ev)
                + spec_encode_string_map(pm.skip(i as int)));
        }
    }
    proof {
        assert(pm.skip(n as int) =~= Seq::<(Seq<char>, Seq<char>)>::empty());
        assert(spec_encode_string_map(pm.skip(n as int)) == Seq::<u8>::empty());
        assert(buf@ + Seq::<u8>::empty() =~= buf@);
    }
    Ok(())
}

/// Appends a 2-byte string count and the short strings of a string list.
pub fn encode_str_list(buf: &mut Vec<u8>, ss: &Vec<String>) -> (r: RCResult<()>)
    ensures
        (ss@.len() <= 0xFFFF && (forall|i: int|
            0 <= i < ss@.len() ==> short_str_ok(#[trigger] str_list_model(ss@)[i]))) ==> (r is Ok
            && final(buf)@ == old(buf)@ + be2(ss@.len() as u16) + spec_encode_str_list(
            str_list_model(ss@),
        )),
        !(ss@.len() <= 0xFFFF && (forall|i: int|
            0 <= i < ss@.len() ==> short_str_ok(#[trigger] str_list_model(ss@)[i]))) ==> (r
            matches Err(e) && e.kind == RCErrorType::SerializeError),
{
    if ss.len() > 0xFFFF {
        return Err(RCError::new("too many strings", RCErrorType::SerializeError));
    }
    let ghost sm = str_list_model(ss@);
    write_u16(buf, ss.len() as u16);
    let n = ss.len();
    let mut i: usize = 0;
    proof {
        assert(sm.skip(0) =~= sm);
    }
    while i < n
        invariant
            n == ss@.len(),
            i <= n,
            sm == str_list_model(ss@),
            forall|j: int| 0 <= j < i ==> short_str_ok(#[trigger] sm[j]),
            old(buf)@ + be2(n as u16) + spec_encode_str_list(sm) == buf@ + spec_encode_str_list(
                sm.skip(i as int),
            ),
        decreases n - i,
    {
        let ghost pre = buf@;
        proof {
            assert(sm.skip(i as int).len() == n - i);
            assert(sm.skip(i as int)[0] == sm[i as int]);
        }
        match write_short_str(buf, ss[i].as_str()) {
            Ok(_) => {},
            Err(e) => {
                return Err(e);
            },
        }
        i += 1;
        proof {
            let e0 = enc_short_str(sm[i - 1]);
            assert(sm.skip(i - 1).drop_first() =~= sm.skip(i as int));
            assert(spec_encode_str_list(sm.skip(i - 1)) == e0 + spec_encode_str_list(
                sm.skip(i as int),
            ));
            assert(pre + (e0 + spec_encode_str_list(sm.skip(i as int))) =~= (pre + e0)
                + spec_encode_str_list(sm.skip(i as int)));
        }
    }
    proof {
        assert(sm.skip(n as int) =~= Seq::<Seq<char>>::empty());
        assert(spec_encode_str_list(sm.skip(n as int)) == Seq::<u8>::empty());
        assert(buf@ + Seq::<u8>::empty() =~= buf@);
    }
    Ok(())
}

/// Appends one batch statement.
pub fn encode_query(buf: &mut Vec<u8>, q: &Query, sz: CqlBytesSize) -> (r: RCResult<()>)
    requires
        sz == CqlBytesSize::Cqli16 || sz == CqlBytesSize::Cqli32,
    ensures
        query_encodable(query_model(*q), sz) ==> (r is Ok && final(buf)@ == old(buf)@
            + spec_encode_query(query_model(*q), sz)),
        !query_encodable(query_model(*q), sz) ==> (r matches Err(e) && e.kind
            == RCErrorType::SerializeError),
{
    match q {
        Query::QueryStr(s, vs) => {
            write_u8(buf, 0);
            match write_long_str(buf, s.as_str()) {
                Ok(_) => {},
                Err(e) => {
                    return Err(e);
                },
            }
            match encode_params(buf, vs, sz) {
                Ok(_) => {},
                Err(e) => {
                    return Err(e);
                },
            }
            Ok(())
        },
        Query::QueryPrepared(id, vs) => {
            write_u8(buf, 1);
            match write_short_bytes(buf, id) {
                Ok(_) => {},
                Err(e) => {
                    return Err(e);
                },
            }
            match encode_params(buf, vs, sz) {
                Ok(_) => {},
                Err(e) => {
                    return Err(e);
                },
            }
            Ok(())
        },
    }
}

/// Appends the statements of a batch, in order.
#[verifier::rlimit(100)]
#[verifier::spinoff_prover]
fn encode_queries(buf: &mut Vec<u8>, qs: &Vec<Query>, sz: CqlBytesSize) -> (r: RCResult<()>)
    requires
        sz == CqlBytesSize::Cqli16 || sz == CqlBytesSize::Cqli32,
    ensures
        (forall|i: int|
            0 <= i < qs@.len() ==> query_encodable(#[trigger] queries_model(qs@)[i], sz)) ==> (r
            is Ok && final(buf)@ == old(buf)@ + spec_encode_queries(queries_model(qs@), sz)),
        !(forall|i: int|
            0 <= i < qs@.len() ==> query_encodable(#[trigger] queries_model(qs@)[i], sz)) ==> (r
            matches Err(e) && e.kind == RCErrorType::SerializeError),
{
    let ghost qm = queries_model(qs@);
    let n = qs.len();
    let mut i: usize = 0;
    proof {
        assert(qm.skip(0) =~= qm);
    }
    while i < n
        invariant
            sz == CqlBytesSize::Cqli16 || sz == CqlBytesSize::Cqli32,
            n == qs@.len(),
            i <= n,
            qm == queries_model(qs@),
            forall|j: int| 0 <= j < i ==> query_encodable(#[trigger] qm[j], sz),
            old(buf)@ + spec_encode_queries(qm, sz) == buf@ + spec_encode_queries(
                qm.skip(i as int),
                sz,
            ),
        decreases n - i,
    {
        let ghost pre = buf@;
        proof {
            assert(qm.skip(i as int).len() == n - i);
            assert(qm.skip(i as int)[0] == qm[i as int]);
            assert(qm[i as int] == query_model(qs@[i as int]));
        }
        match encode_query(buf, &qs[i], sz) {
            Ok(_) => {},
            Err(e) => {
                return Err(e);
            },
        }
        i += 1;
        proof {
            let e0 = spec_encode_query(qm[i - 1], sz);
            assert(qm.skip(i - 1).drop_first() =~= qm.skip(i as int));
            assert(spec_encode_queries(qm.skip(i - 1), sz) == e0 + spec_encode_queries(
                qm.skip(i as int),
                sz,
            ));
            assert(pre + (e0 + spec_encode_queries(qm.skip(i as int), sz)) =~= (pre + e0)
                + spec_encode_queries(qm.skip(i as int), sz));
        }
    }
    proof {
        assert(qm.skip(n as int) =~= Seq::<QueryV>::empty());
        assert(spec_encode_queries(qm.skip(n as int), sz) == Seq::<u8>::empty());
        assert(buf@ + Seq::<u8>::empty() =~= buf@);
    }
    Ok(())
}

/// Builds the body bytes of a request.
#[verifier::rlimit(100)]
#[verifier::spinoff_prover]
pub fn encode_request_body(body: &CqlRequestBody, version: u8) -> (r: RCResult<Vec<u8>>)
    ensures
        body_encodable(request_body_model(*body), version) ==> (r matches Ok(out) && out@
            == spec_encode_request_body(request_body_model(*body), version)),
        !body_encodable(request_body_model(*body), version) ==> (r matches Err(e) && e.kind
            == RCErrorType::SerializeError),
{
    let sz = if version >= 3 {
        CqlBytesSize::Cqli32
    } else {
        CqlBytesSize::Cqli16
    };
    let mut out: Vec<u8> = Vec::new();
    proof {
        assert(out@ =~= Seq::<u8>::empty());
    }
    match body {
        CqlRequestBody::RequestStartup(m) => {
            match encode_string_map(&mut out, m) {
                Ok(_) => Ok(out),
                Err(e) => Err(e),
            }
        },
        CqlRequestBody::RequestCred(c) => {
            match encode_str_list(&mut out, c) {
                Ok(_) => Ok(out),
                Err(e) => Err(e),
            }
        },
        CqlRequestBody::RequestOptions => Ok(out),
        CqlRequestBody::RequestQuery(s, con, f) => {
            match write_long_str(&mut out, s.as_str()) {
                Ok(_) => {},
                Err(e) => {
                    return Err(e);
                },
            }
            write_u16(&mut out, consistency_value(*con));
            write_u8(&mut out, *f);
            Ok(out)
        },
        CqlRequestBody::RequestPrepare(s) => {
            match write_long_str(&mut out, s.as_str()) {
                Ok(_) => {},
                Err(e) => {
                    return Err(e);
                },
            }
            Ok(out)
        },
        CqlRequestBody::RequestExec(id, vs, con, f) => {
            match write_short_bytes(&mut out, id) {
                Ok(_) => {},
                Err(e) => {
                    return Err(e);
                },
            }
            match encode_params(&mut out, vs, sz) {
                Ok(_) => {},
                Err(e) => {
                    return Err(e);
                },
            }
            write_u16(&mut out, consistency_value(*con));
            write_u8(&mut out, *f);
            Ok(out)
        },
        CqlRequestBody::RequestBatch(qs, t, con, f) => {
            if qs.len() > 0xFFFF {
                return Err(RCError::new("too many batch statements", RCErrorType::SerializeError));
            }
            write_u8(&mut out, batch_type_value(*t));
            write_u16(&mut out, qs.len() as u16);
            match encode_queries(&mut out, qs, sz) {
                Ok(_) => {},
                Err(e) => {
                    return Err(e);
                },
            }
            write_u16(&mut out, consistency_value(*con));
            write_u8(&mut out, *f);
            Ok(out)
        },
        CqlRequestBody::RequestRegister(es) => {
            match encode_str_list(&mut out, es) {
                Ok(_) => Ok(out),
                Err(e) => Err(e),
            }
        },
    }
}

/// Encodes one whole request frame, or fails with a serialize error on a
/// request the wire cannot carry.
pub fn encode_request(req: &CqlRequest) -> (r: RCResult<Vec<u8>>)
    ensures
        request_encodable(request_model(*req)) ==> (r matches Ok(out) && out@
            == spec_encode_request(request_model(*req))),
        !request_encodable(request_model(*req)) ==> (r matches Err(e) && e.kind
            == RCErrorType::SerializeError),
{
    if req.version < 1 || req.version > 3 {
        return Err(RCError::new("unsupported protocol revision", RCErrorType::SerializeError));
    }
    if req.version < 3 && (req.stream < -128 || req.stream > 127) {
        return Err(
            RCError::new("stream id out of range for revision", RCErrorType::SerializeError),
        );
    }
    let expected: OpcodeRequest = match &req.body {
        CqlRequestBody::RequestStartup(_) => OpcodeRequest::OpcodeStartup,
        CqlRequestBody::RequestCred(_) => OpcodeRequest::OpcodeCred,
        CqlRequestBody::RequestOptions => OpcodeRequest::OpcodeOptions,
        CqlRequestBody::RequestQuery(_, _, _) => OpcodeRequest::OpcodeQuery,
        CqlRequestBody::RequestPrepare(_) => OpcodeRequest::OpcodePrepare,
        CqlRequestBody::RequestExec(_, _, _, _) => OpcodeRequest::OpcodeExecute,
        CqlRequestBody::RequestBatch(_, _, _, _) => OpcodeRequest::OpcodeBatch,
        CqlRequestBody::RequestRegister(_) => OpcodeRequest::OpcodeRegister,
    };
    if !(req.opcode == expected) {
        return Err(RCError::new("opcode does not name the body", RCErrorType::SerializeError));
    }
    let body = match encode_request_body(&req.body, req.version) {
        Ok(b) => b,
        Err(e) => {
            return Err(e);
        },
    };
    if body.len() > 0x7FFF_FFFF {
        return Err(RCError::new("body too long", RCErrorType::SerializeError));
    }
    let mut out: Vec<u8> = Vec::new();
    write_u8(&mut out, req.version);
    write_u8(&mut out, req.flags);
    if req.version >= 3 {
        write_u16(&mut out, u16_from_i16(req.stream));
    } else {
        write_u8(&mut out, (u16_from_i16(req.stream) % 256) as u8);
    }
    write_u8(&mut out, opcode_request_value(req.opcode));
    write_u32(&mut out, body.len() as u32);
    write_bytes(&mut out, &body);
    proof {
        assert(out@ =~= spec_encode_request(request_model(*req)));
    }
    Ok(out)
}

/// The model of an executable type context: the declared parameter types
/// of each statement carrying bound values.
pub open spec fn ctx_model(c: Seq<Vec<CqlValueType>>) -> Seq<Seq<CqlValueType>> {
    Seq::new(c.len(), |i: int| c[i]@)
}

impl crate::reader::CqlReader {
    /// Reads one bound value per declared parameter type.
    fn read_typed_values(&mut self, types: &Vec<CqlValueType>, sz: CqlBytesSize) -> (r: RCResult<
        Vec<CqlValue>,
    >)
        requires
            old(self).wf(),
        ensures
            final(self).wf(),
            final(self).data@ == old(self).data@,
            (match crate::grammar::spec_read_typed_values(
                old(self).data@,
                old(self).pos as int,
                types@,
                sz,
            ) {
                Some((vs, p1)) => r matches Ok(out) && values_model(out@) == vs && final(self).pos == p1,
                None => r matches Err(e) && e.kind == RCErrorType::ReadError,
            }),
    {
        let ghost b = self.data@;
        let ghost p0 = self.pos as int;
        let ghost tm = types@;
        let n = types.len();
        let mut out: Vec<CqlValue> = Vec::new();
        let mut i: usize = 0;
        proof {
            assert(values_model(out@) =~= Seq::<ValueV>::empty());
            assert(tm.skip(0) =~= tm);
        }
        while i < n
            invariant
                self.wf(),
                b == old(self).data@,
                p0 == old(self).pos as int,
                self.data@ == b,
                tm == types@,
                n == types@.len(),
                i <= n,
                out@.len() == i,
                crate::grammar::spec_read_typed_values(b, p0, tm, sz) == (
                match crate::grammar::spec_read_typed_values(b, self.pos as int, tm.skip(i as int), sz) {
                    Some((rest, pe)) => Some(((values_model(out@) + rest), pe)),
                    None => None::<(Seq<ValueV>, int)>,
                }),
            decreases n - i,
        {
            let ghost acc = values_model(out@);
            proof {
                assert(tm.skip(i as int).len() == n - i);
                assert(tm.skip(i as int)[0] == tm[i as int]);
            }
            match self.read_cql_value_single(types[i], sz) {
                Ok(cv) => {
                    out.push(cv);
                    i += 1;
                    proof {
                        let v = value_model(cv);
                        assert(values_model(out@) =~= acc + seq![v]);
                        assert(tm.skip(i - 1).drop_first() =~= tm.skip(i as int));
                        match crate::grammar::spec_read_typed_values(
                            b,
                            self.pos as int,
                            tm.skip(i as int),
                            sz,
                        ) {
                            Some((rest2, pe2)) => {
                                assert(acc + (seq![v] + rest2) =~= (acc + seq![v]) + rest2);
                            },
                            None => {},
                        }
                    }
                },
                Err(e) => {
                    return Err(e);
                },
            }
        }
        proof {
            assert(tm.skip(n as int) =~= Seq::<CqlValueType>::empty());
            assert(crate::grammar::spec_read_typed_values(b, self.pos as int, tm.skip(n as int), sz)
                == Some((Seq::<ValueV>::empty(), self.pos as int)));
            assert(values_model(out@) + Seq::<ValueV>::empty() =~= values_model(out@));
        }
        Ok(out)
    }

    /// Reads the bound values of a statement: the 2-byte count must name
    /// one value per declared parameter type.
    fn read_params(&mut self, types: &Vec<CqlValueType>, sz: CqlBytesSize) -> (r: RCResult<
        Vec<CqlValue>,
    >)
        requires
            old(self).wf(),
        ensures
            final(self).wf(),
            final(self).data@ == old(self).data@,
            (match crate::grammar::spec_read_params(
                old(self).data@,
                old(self).pos as int,
                types@,
                sz,
            ) {
                Some((vs, p1)) => r matches Ok(out) && values_model(out@) == vs && final(self).pos == p1,
                None => r matches Err(e) && e.kind == RCErrorType::ReadError,
            }),
    {
        let cnt = match self.read_u16() {
            Ok(v) => v,
            Err(_) => {
                return Err(RCError::new("short read in value count", RCErrorType::ReadError));
            },
        };
        if (cnt as usize) != types.len() {
            return Err(
                RCError::new("value count does not match declared types", RCErrorType::ReadError),
            );
        }
        self.read_typed_values(types, sz)
    }

    /// Reads the pairs of a string map.
    fn read_string_map(&mut self, n: u16) -> (r: RCResult<CqlStringMap>)
        requires
            old(self).wf(),
        ensures
            final(self).wf(),
            final(self).data@ == old(self).data@,
            (match crate::grammar::spec_read_string_map(
                old(self).data@,
                old(self).pos as int,
                n as nat,
            ) {
                Some((pairs, p1)) => r matches Ok(m) && string_map_model(m) == pairs && final(self).pos == p1,
                None => r matches Err(e) && e.kind == RCErrorType::ReadError,
            }),
    {
        let ghost b = self.data@;
        let ghost p0 = self.pos as int;
        let mut out: Vec<CqlPair> = Vec::new();
        let mut i: u16 = 0;
        proof {
            assert(Seq::new(out@.len(), |j: int| (out@[j].key@, out@[j].value@)) =~= Seq::<
                (Seq<char>, Seq<char>),
            >::empty());
        }
        while i < n
            invariant
                self.wf(),
                b == old(self).data@,
                p0 == old(self).pos as int,
                self.data@ == b,
                i <= n,
                out@.len() == i,
                crate::grammar::spec_read_string_map(b, p0, n as nat) == (
                match crate::grammar::spec_read_string_map(b, self.pos as int, (n - i) as nat) {
                    Some((rest, pe)) => Some(
                        (
                            (Seq::new(out@.len(), |j: int| (out@[j].key@, out@[j].value@)) + rest),
                            pe,
                        ),
                    ),
                    None => None::<(Seq<(Seq<char>, Seq<char>)>, int)>,
                }),
            decreases n - i,
        {
            let ghost acc = Seq::new(out@.len(), |j: int| (out@[j].key@, out@[j].value@));
            let key = match self.read_cql_str_nn(CqlBytesSize::Cqli16) {
                Ok(s) => s,
                Err(e) => {
                    return Err(e);
                },
            };
            match self.read_cql_str_nn(CqlBytesSize::Cqli16) {
                Ok(value) => {
                    let ghost kv = (key@, value@);
                    out.push(CqlPair { key, value });
                    i += 1;
                    proof {
                        assert(Seq::new(out@.len(), |j: int| (out@[j].key@, out@[j].value@)) =~= acc
                            + seq![kv]);
                        match crate::grammar::spec_read_string_map(
                            b,
                            self.pos as int,
                            (n - i) as nat,
                        ) {
                            Some((rest2, pe2)) => {
                                assert(acc + (seq![kv] + rest2) =~= (acc + seq![kv]) + rest2);
                            },
                            None => {},
                        }
                    }
                },
                Err(e) => {
                    return Err(e);
                },
            }
        }
        proof {
            assert(crate::grammar::spec_read_string_map(b, self.pos as int, 0) == Some(
                (Seq::<(Seq<char>, Seq<char>)>::empty(), self.pos as int),
            ));
            assert(Seq::new(out@.len(), |j: int| (out@[j].key@, out@[j].value@)) + Seq::<
                (Seq<char>, Seq<char>),
            >::empty() =~= Seq::new(out@.len(), |j: int| (out@[j].key@, out@[j].value@)));
        }
        let m = CqlStringMap { pairs: out };
        proof {
            assert(string_map_model(m) =~= Seq::new(
                m.pairs@.len(),
                |j: int| (m.pairs@[j].key@, m.pairs@[j].value@),
            ));
        }
        Ok(m)
    }

    /// Reads the short strings of a string list.
    fn read_str_list(&mut self, n: u16) -> (r: RCResult<Vec<String>>)
        requires
            old(self).wf(),
        ensures
            final(self).wf(),
            final(self).data@ == old(self).data@,
            (match crate::grammar::spec_read_str_list(
                old(self).data@,
                old(self).pos as int,
                n as nat,
            ) {
                Some((ss, p1)) => r matches Ok(out) && str_list_model(out@) == ss && final(self).pos == p1,
                None => r matches Err(e) && e.kind == RCErrorType::ReadError,
            }),
    {
        let ghost b = self.data@;
        let ghost p0 = self.pos as int;
        let mut out: Vec<String> = Vec::new();
        let mut i: u16 = 0;
        proof {
            assert(str_list_model(out@) =~= Seq::<Seq<char>>::empty());
        }
        while i < n
            invariant
                self.wf(),
                b == old(self).data@,
                p0 == old(self).pos as int,
                self.data@ == b,
                i <= n,
                out@.len() == i,
                crate::grammar::spec_read_str_list(b, p0, n as nat) == (
                match crate::grammar::spec_read_str_list(b, self.pos as int, (n - i) as nat) {
                    Some((rest, pe)) => Some(((str_list_model(out@) + rest), pe)),
                    None => None::<(Seq<Seq<char>>, int)>,
                }),
            decreases n - i,
        {
            let ghost acc = str_list_model(out@);
            match self.read_cql_str_nn(CqlBytesSize::Cqli16) {
                Ok(sv) => {
                    let ghost svv = sv@;
                    out.push(sv);
                    i += 1;
                    proof {
                        assert(str_list_model(out@) =~= acc + seq![svv]);
                        match crate::grammar::spec_read_str_list(
                            b,
                            self.pos as int,
                            (n - i) as nat,
                        ) {
                            Some((rest2, pe2)) => {
                                assert(acc + (seq![svv] + rest2) =~= (acc + seq![svv]) + rest2);
                            },
                            None => {},
                        }
                    }
                },
                Err(e) => {
                    return Err(e);
                },
            }
        }
        proof {
            assert(crate::grammar::spec_read_str_list(b, self.pos as int, 0) == Some(
                (Seq::<Seq<char>>::empty(), self.pos as int),
            ));
            assert(str_list_model(out@) + Seq::<Seq<char>>::empty() =~= str_list_model(out@));
        }
        Ok(out)
    }

    /// Reads one batch statement.
    fn read_query(&mut self, types: &Vec<CqlValueType>, sz: CqlBytesSize) -> (r: RCResult<Query>)
        requires
            old(self).wf(),
        ensures
            final(self).wf(),
            final(self).data@ == old(self).data@,
            (match crate::grammar::spec_read_query(
                old(self).data@,
                old(self).pos as int,
                types@,
                sz,
            ) {
                Some((q, p1)) => r matches Ok(out) && query_model(out) == q && final(self).pos == p1,
                None => r matches Err(e) && e.kind == RCErrorType::ReadError,
            }),
    {
        let kind = match self.read_u8() {
            Ok(v) => v,
            Err(_) => {
                return Err(RCError::new("short read in statement kind", RCErrorType::ReadError));
            },
        };
        if kind == 0 {
            let s = match self.read_cql_str_nn(CqlBytesSize::Cqli32) {
                Ok(s) => s,
                Err(e) => {
                    return Err(e);
                },
            };
            match self.read_params(types, sz) {
                Ok(vs) => Ok(Query::QueryStr(s, vs)),
                Err(e) => Err(e),
            }
        } else if kind == 1 {
            let id = match self.read_cql_bytes_opt(CqlBytesSize::Cqli16) {
                Ok(Some(id)) => id,
                Ok(None) => {
                    return Err(RCError::new("null prepared id", RCErrorType::ReadError));
                },
                Err(e) => {
                    return Err(e);
                },
            };
            match self.read_params(types, sz) {
                Ok(vs) => Ok(Query::QueryPrepared(id, vs)),
                Err(e) => Err(e),
            }
        } else {
            Err(RCError::new("unknown batch statement kind", RCErrorType::ReadError))
        }
    }

    /// Reads one batch statement per entry of the type context.
    fn read_queries(&mut self, ctx: &Vec<Vec<CqlValueType>>, sz: CqlBytesSize) -> (r: RCResult<
        Vec<Query>,
    >)
        requires
            old(self).wf(),
        ensures
            final(self).wf(),
            final(self).data@ == old(self).data@,
            (match crate::grammar::spec_read_queries(
                old(self).data@,
                old(self).pos as int,
                ctx_model(ctx@),
                sz,
            ) {
                Some((qs, p1)) => r matches Ok(out) && queries_model(out@) == qs && final(self).pos == p1,
                None => r matches Err(e) && e.kind == RCErrorType::ReadError,
            }),
    {
        let ghost b = self.data@;
        let ghost p0 = self.pos as int;
        let ghost cm = ctx_model(ctx@);
        let n = ctx.len();
        let mut out: Vec<Query> = Vec::new();
        let mut i: usize = 0;
        proof {
            assert(queries_model(out@) =~= Seq::<QueryV>::empty());
            assert(cm.skip(0) =~= cm);
        }
        while i < n
            invariant
                self.wf(),
                b == old(self).data@,
                p0 == old(self).pos as int,
                self.data@ == b,
                cm == ctx_model(ctx@),
                n == ctx@.len(),
                i <= n,
                out@.len() == i,
                crate::grammar::spec_read_queries(b, p0, cm, sz) == (
                match crate::grammar::spec_read_queries(b, self.pos as int, cm.skip(i as int), sz) {
                    Some((rest, pe)) => Some(((queries_model(out@) + rest), pe)),
                    None => None::<(Seq<QueryV>, int)>,
                }),
            decreases n - i,
        {
            let ghost acc = queries_model(out@);
            proof {
                assert(cm.skip(i as int).len() == n - i);
                assert(cm.skip(i as int)[0] == cm[i as int]);
                assert(cm[i as int] == ctx@[i as int]@);
            }
            match self.read_query(&ctx[i], sz) {
                Ok(q) => {
                    let ghost qv = query_model(q);
                    out.push(q);
                    i += 1;
                    proof {
                        assert(queries_model(out@) =~= acc + seq![qv]);
                        assert(cm.skip(i - 1).drop_first() =~= cm.skip(i as int));
                        match crate::grammar::spec_read_queries(
                            b,
                            self.pos as int,
                            cm.skip(i as int),
                            sz,
                        ) {
                            Some((rest2, pe2)) => {
                                assert(acc + (seq![qv] + rest2) =~= (acc + seq![qv]) + rest2);
                            },
                            None => {},
                        }
                    }
                },
                Err(e) => {
                    return Err(e);
                },
            }
        }
        proof {
            assert(cm.skip(n as int) =~= Seq::<Seq<CqlValueType>>::empty());
            assert(crate::grammar::spec_read_queries(b, self.pos as int, cm.skip(n as int), sz)
                == Some((Seq::<QueryV>::empty(), self.pos as int)));
            assert(queries_model(out@) + Seq::<QueryV>::empty() =~= queries_model(out@));
        }
        Ok(out)
    }
}

/// Decodes a request body of the given opcode from its own buffer, with a
/// type context for bound values.
#[verifier::rlimit(100)]
#[verifier::spinoff_prover]
fn decode_request_body(
    op: OpcodeRequest,
    version: u8,
    body: Vec<u8>,
    ctx: &Vec<Vec<CqlValueType>>,
) -> (r: RCResult<CqlRequestBody>)
    ensures
        (match crate::grammar::spec_read_request_body(op, version, body@, ctx_model(ctx@)) {
            Some(bv) => r matches Ok(cb) && request_body_model(cb) == bv,
            None => r matches Err(e) && e.kind == RCErrorType::ReadError,
        }),
{
    let sz = if version >= 3 {
        CqlBytesSize::Cqli32
    } else {
        CqlBytesSize::Cqli16
    };
    let mut rd = crate::reader::CqlReader::new(body);
    match op {
        OpcodeRequest::OpcodeStartup => {
            let n = match rd.read_u16() {
                Ok(v) => v,
                Err(_) => {
                    return Err(RCError::new("short read in pair count", RCErrorType::ReadError));
                },
            };
            match rd.read_string_map(n) {
                Ok(m) => Ok(CqlRequestBody::RequestStartup(m)),
                Err(e) => Err(e),
            }
        },
        OpcodeRequest::OpcodeCred => {
            let n = match rd.read_u16() {
                Ok(v) => v,
                Err(_) => {
                    return Err(RCError::new("short read in string count", RCErrorType::ReadError));
                },
            };
            match rd.read_str_list(n) {
                Ok(ss) => Ok(CqlRequestBody::RequestCred(ss)),
                Err(e) => Err(e),
            }
        },
        OpcodeRequest::OpcodeOptions => Ok(CqlRequestBody::RequestOptions),
        OpcodeRequest::OpcodeQuery => {
            let s = match rd.read_cql_str_nn(CqlBytesSize::Cqli32) {
                Ok(s) => s,
                Err(e) => {
                    return Err(e);
                },
            };
            let cv = match rd.read_u16() {
                Ok(v) => v,
                Err(_) => {
                    return Err(RCError::new("short read in consistency", RCErrorType::ReadError));
                },
            };
            let con = match consistency_from(cv) {
                Some(c) => c,
                None => {
                    return Err(RCError::new("unknown consistency", RCErrorType::ReadError));
                },
            };
            match rd.read_u8() {
                Ok(f) => Ok(CqlRequestBody::RequestQuery(s, con, f)),
                Err(_) => Err(RCError::new("short read in flags", RCErrorType::ReadError)),
            }
        },
        OpcodeRequest::OpcodePrepare => {
            match rd.read_cql_str_nn(CqlBytesSize::Cqli32) {
                Ok(s) => Ok(CqlRequestBody::RequestPrepare(s)),
                Err(e) => Err(e),
            }
        },
        OpcodeRequest::OpcodeExecute => {
            let id = match rd.read_cql_bytes_opt(CqlBytesSize::Cqli16) {
                Ok(Some(id)) => id,
                Ok(None) => {
                    return Err(RCError::new("null prepared id", RCErrorType::ReadError));
                },
                Err(e) => {
                    return Err(e);
                },
            };
            let empty_types: Vec<CqlValueType> = Vec::new();
            let vs = if ctx.len() > 0 {
                match rd.read_params(&ctx[0], sz) {
                    Ok(vs) => vs,
                    Err(e) => {
                        return Err(e);
                    },
                }
            } else {
                proof {
                    assert(empty_types@ =~= Seq::<CqlValueType>::empty());
                }
                match rd.read_params(&empty_types, sz) {
                    Ok(vs) => vs,
                    Err(e) => {
                        return Err(e);
                    },
                }
            };
            let cv = match rd.read_u16() {
                Ok(v) => v,
                Err(_) => {
                    return Err(RCError::new("short read in consistency", RCErrorType::ReadError));
                },
            };
            let con = match consistency_from(cv) {
                Some(c) => c,
                None => {
                    return Err(RCError::new("unknown consistency", RCErrorType::ReadError));
                },
            };
            match rd.read_u8() {
                Ok(f) => Ok(CqlRequestBody::RequestExec(id, vs, con, f)),
                Err(_) => Err(RCError::new("short read in flags", RCErrorType::ReadError)),
            }
        },
        OpcodeRequest::OpcodeBatch => {
            let bt = match rd.read_u8() {
                Ok(v) => v,
                Err(_) => {
                    return Err(RCError::new("short read in batch type", RCErrorType::ReadError));
                },
            };
            let t = match batch_type_from(bt) {
                Some(t) => t,
                None => {
                    return Err(RCError::new("unknown batch type", RCErrorType::ReadError));
                },
            };
            let n = match rd.read_u16() {
                Ok(v) => v,
                Err(_) => {
                    return Err(
                        RCError::new("short read in statement count", RCErrorType::ReadError),
                    );
                },
            };
            if (n as usize) != ctx.len() {
                return Err(
                    RCError::new(
                        "statement count does not match declared context",
                        RCErrorType::ReadError,
                    ),
                );
            }
            let qs = match rd.read_queries(ctx, sz) {
                Ok(qs) => qs,
                Err(e) => {
                    return Err(e);
                },
            };
            let cv = match rd.read_u16() {
                Ok(v) => v,
                Err(_) => {
                    return Err(RCError::new("short read in consistency", RCErrorType::ReadError));
                },
            };
            let con = match consistency_from(cv) {
                Some(c) => c,
                None => {
                    return Err(RCError::new("unknown consistency", RCErrorType::ReadError));
                },
            };
            match rd.read_u8() {
                Ok(f) => Ok(CqlRequestBody::RequestBatch(qs, t, con, f)),
                Err(_) => Err(RCError::new("short read in flags", RCErrorType::ReadError)),
            }
        },
        OpcodeRequest::OpcodeRegister => {
            let n = match rd.read_u16() {
                Ok(v) => v,
                Err(_) => {
                    return Err(RCError::new("short read in string count", RCErrorType::ReadError));
                },
            };
            match rd.read_str_list(n) {
                Ok(ss) => Ok(CqlRequestBody::RequestRegister(ss)),
                Err(e) => Err(e),
            }
        },
    }
}

/// Decodes one whole request frame; the type context supplies the
/// declared parameter types of bound values, which the wire does not
/// carry.
pub fn decode_request(bytes: &Vec<u8>, version: u8, ctx: &Vec<Vec<CqlValueType>>) -> (r: RCResult<
    CqlRequest,
>)
    ensures
        (match crate::grammar::spec_read_request(bytes@, 0, version, ctx_model(ctx@)) {
            Some((rv, _)) => r matches Ok(req) && request_model(req) == rv,
            None => r matches Err(e) && e.kind == RCErrorType::ReadError,
        }),
{
    let mut rd = crate::reader::CqlReader::new(vstd::slice::slice_to_vec(bytes.as_slice()));
    let header = match rd.read_cql_frame_header(version) {
        Ok(h) => h,
        Err(e) => {
            return Err(e);
        },
    };
    let blen = match rd.read_cql_bytes_length(CqlBytesSize::Cqli32) {
        Ok(n) => n,
        Err(e) => {
            return Err(e);
        },
    };
    let body: Vec<u8>;
    if blen < 0 {
        body = Vec::new();
        proof {
            assert(body@ =~= Seq::<u8>::empty());
        }
    } else {
        body = match rd.take(blen as usize) {
            Ok(v) => v,
            Err(_) => {
                return Err(RCError::new("short read in body", RCErrorType::ReadError));
            },
        };
    }
    let op = match opcode_request_from(header.opcode) {
        Some(op) => op,
        None => {
            return Err(RCError::new("unknown request opcode", RCErrorType::ReadError));
        },
    };
    match decode_request_body(op, version, body, ctx) {
        Ok(bd) => Ok(
            CqlRequest {
                version: header.version,
                flags: header.flags,
                stream: header.stream,
                opcode: op,
                body: bd,
            },
        ),
        Err(e) => Err(e),
    }
}

} // verus!
