//! Protocol definitions: opcodes, consistency levels, typed values, frame
//! headers, requests, responses and server-pushed events, together with the
//! numeric code assignments of the wire protocol.

use vstd::prelude::*;

verus! {

/// Default TCP port of the database's native protocol.
pub const CQL_DEFAULT_PORT: u16 = 9042;

/// Highest protocol revision this client speaks.
pub const CQL_MAX_SUPPORTED_VERSION: u8 = 3;

/// Width of a length field on the wire.
#[derive(Clone, Copy, Debug, PartialEq, Eq, Structural)]
pub enum CqlBytesSize {
    /// One unsigned byte.
    Cqli8,
    /// Two-byte signed big-endian.
    Cqli16,
    /// Four-byte signed big-endian.
    Cqli32,
}

/// Request opcodes.
#[derive(Clone, Copy, Debug, PartialEq, Eq, Structural)]
pub enum OpcodeRequest {
    OpcodeStartup,
    OpcodeCred,
    OpcodeOptions,
    OpcodeQuery,
    OpcodePrepare,
    OpcodeExecute,
    OpcodeRegister,
    OpcodeBatch,
}

/// The wire value of a request opcode.
pub fn opcode_request_value(op: OpcodeRequest) -> (r: u8)
    ensures
        r == spec_opcode_request_value(op),
{
    match op {
        OpcodeRequest::OpcodeStartup => 0x01,
        OpcodeRequest::OpcodeCred => 0x04,
        OpcodeRequest::OpcodeOptions => 0x05,
        OpcodeRequest::OpcodeQuery => 0x07,
        OpcodeRequest::OpcodePrepare => 0x09,
        OpcodeRequest::OpcodeExecute => 0x0A,
        OpcodeRequest::OpcodeRegister => 0x0B,
        OpcodeRequest::OpcodeBatch => 0x0D,
    }
}

/// The wire value of a request opcode.
pub open spec fn spec_opcode_request_value(op: OpcodeRequest) -> u8 {
    match op {
        OpcodeRequest::OpcodeStartup => 0x01,
        OpcodeRequest::OpcodeCred => 0x04,
        OpcodeRequest::OpcodeOptions => 0x05,
        OpcodeRequest::OpcodeQuery => 0x07,
        OpcodeRequest::OpcodePrepare => 0x09,
        OpcodeRequest::OpcodeExecute => 0x0A,
        OpcodeRequest::OpcodeRegister => 0x0B,
        OpcodeRequest::OpcodeBatch => 0x0D,
    }
}

/// The request opcode denoted by a wire byte, if any.
pub open spec fn spec_opcode_request_from(code: u8) -> Option<OpcodeRequest> {
    if code == 0x01 {
        Some(OpcodeRequest::OpcodeStartup)
    } else if code == 0x04 {
        Some(OpcodeRequest::OpcodeCred)
    } else if code == 0x05 {
        Some(OpcodeRequest::OpcodeOptions)
    } else if code == 0x07 {
        Some(OpcodeRequest::OpcodeQuery)
    } else if code == 0x09 {
        Some(OpcodeRequest::OpcodePrepare)
    } else if code == 0x0A {
        Some(OpcodeRequest::OpcodeExecute)
    } else if code == 0x0B {
        Some(OpcodeRequest::OpcodeRegister)
    } else if code == 0x0D {
        Some(OpcodeRequest::OpcodeBatch)
    } else {
        None
    }
}

/// The request opcode denoted by a wire byte, if any.
pub fn opcode_request_from(code: u8) -> (r: Option<OpcodeRequest>)
    ensures
        r == spec_opcode_request_from(code),
{
    if code == 0x01 {
        Some(OpcodeRequest::OpcodeStartup)
    } else if code == 0x04 {
        Some(OpcodeRequest::OpcodeCred)
    } else if code == 0x05 {
        Some(OpcodeRequest::OpcodeOptions)
    } else if code == 0x07 {
        Some(OpcodeRequest::OpcodeQuery)
    } else if code == 0x09 {
        Some(OpcodeRequest::OpcodePrepare)
    } else if code == 0x0A {
        Some(OpcodeRequest::OpcodeExecute)
    } else if code == 0x0B {
        Some(OpcodeRequest::OpcodeRegister)
    } else if code == 0x0D {
        Some(OpcodeRequest::OpcodeBatch)
    } else {
        None
    }
}

/// Response opcodes; `OpcodeUnknown` stands for any unassigned byte.
#[derive(Clone, Copy, Debug, PartialEq, Eq, Structural)]
pub enum OpcodeResponse {
    OpcodeError,
    OpcodeReady,
    OpcodeAuthenticate,
    OpcodeSupported,
    OpcodeResult,
    OpcodeEvent,
    OpcodeAuthChallenge,
    OpcodeAuthSuccess,
    OpcodeUnknown,
}

/// The response opcode denoted by a wire byte.
pub open spec fn spec_opcode_response(code: u8) -> OpcodeResponse {
    if code == 0x00 {
        OpcodeResponse::OpcodeError
    } else if code == 0x02 {
        OpcodeResponse::OpcodeReady
    } else if code == 0x03 {
        OpcodeResponse::OpcodeAuthenticate
    } else if code == 0x06 {
        OpcodeResponse::OpcodeSupported
    } else if code == 0x08 {
        OpcodeResponse::OpcodeResult
    } else if code == 0x0C {
        OpcodeResponse::OpcodeEvent
    } else if code == 0x0E {
        OpcodeResponse::OpcodeAuthChallenge
    } else if code == 0x10 {
        OpcodeResponse::OpcodeAuthSuccess
    } else {
        OpcodeResponse::OpcodeUnknown
    }
}

/// The response opcode denoted by a wire byte.
pub fn opcode_response(code: u8) -> (r: OpcodeResponse)
    ensures
        r == spec_opcode_response(code),
{
    if code == 0x00 {
        OpcodeResponse::OpcodeError
    } else if code == 0x02 {
        OpcodeResponse::OpcodeReady
    } else if code == 0x03 {
        OpcodeResponse::OpcodeAuthenticate
    } else if code == 0x06 {
        OpcodeResponse::OpcodeSupported
    } else if code == 0x08 {
        OpcodeResponse::OpcodeResult
    } else if code == 0x0C {
        OpcodeResponse::OpcodeEvent
    } else if code == 0x0E {
        OpcodeResponse::OpcodeAuthChallenge
    } else if code == 0x10 {
        OpcodeResponse::OpcodeAuthSuccess
    } else {
        OpcodeResponse::OpcodeUnknown
    }
}

/// Consistency levels, with the protocol's numeric assignments.
#[derive(Clone, Copy, Debug, PartialEq, Eq, Structural)]
pub enum Consistency {
    Any,
    One,
    Two,
    Three,
    Quorum,
    All,
    LocalQuorum,
    EachQuorum,
    Serial,
    LocalSerial,
    LocalOne,
}

/// The wire value of a consistency level.
pub open spec fn spec_consistency_value(c: Consistency) -> u16 {
    match c {
        Consistency::Any => 0,
        Consistency::One => 1,
        Consistency::Two => 2,
        Consistency::Three => 3,
        Consistency::Quorum => 4,
        Consistency::All => 5,
        Consistency::LocalQuorum => 6,
        Consistency::EachQuorum => 7,
        Consistency::Serial => 8,
        Consistency::LocalSerial => 9,
        Consistency::LocalOne => 10,
    }
}

/// The wire value of a consistency level.
pub fn consistency_value(c: Consistency) -> (r: u16)
    ensures
        r == spec_consistency_value(c),
{
    match c {
        Consistency::Any => 0,
        Consistency::One => 1,
        Consistency::Two => 2,
        Consistency::Three => 3,
        Consistency::Quorum => 4,
        Consistency::All => 5,
        Consistency::LocalQuorum => 6,
        Consistency::EachQuorum => 7,
        Consistency::Serial => 8,
        Consistency::LocalSerial => 9,
        Consistency::LocalOne => 10,
    }
}

/// The consistency level denoted by a wire value, if any.
pub open spec fn spec_consistency_from(v: u16) -> Option<Consistency> {
    if v == 0 {
        Some(Consistency::Any)
    } else if v == 1 {
        Some(Consistency::One)
    } else if v == 2 {
        Some(Consistency::Two)
    } else if v == 3 {
        Some(Consistency::Three)
    } else if v == 4 {
        Some(Consistency::Quorum)
    } else if v == 5 {
        Some(Consistency::All)
    } else if v == 6 {
        Some(Consistency::LocalQuorum)
    } else if v == 7 {
        Some(Consistency::EachQuorum)
    } else if v == 8 {
        Some(Consistency::Serial)
    } else if v == 9 {
        Some(Consistency::LocalSerial)
    } else if v == 10 {
        Some(Consistency::LocalOne)
    } else {
        None
    }
}

/// The consistency level denoted by a wire value, if any.
pub fn consistency_from(v: u16) -> (r: Option<Consistency>)
    ensures
        r == spec_consistency_from(v),
{
    if v == 0 {
        Some(Consistency::Any)
    } else if v == 1 {
        Some(Consistency::One)
    } else if v == 2 {
        Some(Consistency::Two)
    } else if v == 3 {
        Some(Consistency::Three)
    } else if v == 4 {
        Some(Consistency::Quorum)
    } else if v == 5 {
        Some(Consistency::All)
    } else if v == 6 {
        Some(Consistency::LocalQuorum)
    } else if v == 7 {
        Some(Consistency::EachQuorum)
    } else if v == 8 {
        Some(Consistency::Serial)
    } else if v == 9 {
        Some(Consistency::LocalSerial)
    } else if v == 10 {
        Some(Consistency::LocalOne)
    } else {
        None
    }
}

/// Batch kinds, with the protocol's numeric assignments.
#[derive(Clone, Copy, Debug, PartialEq, Eq, Structural)]
pub enum BatchType {
    Logged,
    Unlogged,
    Counter,
}

/// The wire value of a batch kind.
pub open spec fn spec_batch_type_value(b: BatchType) -> u8 {
    match b {
        BatchType::Logged => 0,
        BatchType::Unlogged => 1,
        BatchType::Counter => 2,
    }
}

/// The wire value of a batch kind.
pub fn batch_type_value(b: BatchType) -> (r: u8)
    ensures
        r == spec_batch_type_value(b),
{
    match b {
        BatchType::Logged => 0,
        BatchType::Unlogged => 1,
        BatchType::Counter => 2,
    }
}

/// The batch kind denoted by a wire value, if any.
pub open spec fn spec_batch_type_from(v: u8) -> Option<BatchType> {
    if v == 0 {
        Some(BatchType::Logged)
    } else if v == 1 {
        Some(BatchType::Unlogged)
    } else if v == 2 {
        Some(BatchType::Counter)
    } else {
        None
    }
}

/// The batch kind denoted by a wire value, if any.
pub fn batch_type_from(v: u8) -> (r: Option<BatchType>)
    ensures
        r == spec_batch_type_from(v),
{
    if v == 0 {
        Some(BatchType::Logged)
    } else if v == 1 {
        Some(BatchType::Unlogged)
    } else if v == 2 {
        Some(BatchType::Counter)
    } else {
        None
    }
}

/// Sub-kind discriminator of a `Result` response body.
#[derive(Clone, Copy, Debug, PartialEq, Eq, Structural)]
pub enum KindResult {
    KindVoid,
    KindRows,
    KindSetKeyspace,
    KindPrepared,
    KindSchemaChange,
}

/// The result kind denoted by a wire value, if any.
pub open spec fn spec_kind_result_from(v: u32) -> Option<KindResult> {
    if v == 1 {
        Some(KindResult::KindVoid)
    } else if v == 2 {
        Some(KindResult::KindRows)
    } else if v == 3 {
        Some(KindResult::KindSetKeyspace)
    } else if v == 4 {
        Some(KindResult::KindPrepared)
    } else if v == 5 {
        Some(KindResult::KindSchemaChange)
    } else {
        None
    }
}

/// The result kind denoted by a wire value, if any.
pub fn kind_result_from(v: u32) -> (r: Option<KindResult>)
    ensures
        r == spec_kind_result_from(v),
{
    if v == 1 {
        Some(KindResult::KindVoid)
    } else if v == 2 {
        Some(KindResult::KindRows)
    } else if v == 3 {
        Some(KindResult::KindSetKeyspace)
    } else if v == 4 {
        Some(KindResult::KindPrepared)
    } else if v == 5 {
        Some(KindResult::KindSchemaChange)
    } else {
        None
    }
}

/// Column type codes of the wire protocol.
#[derive(Clone, Copy, Debug, PartialEq, Eq, Structural)]
pub enum CqlValueType {
    ColumnCustom,
    ColumnASCII,
    ColumnBigInt,
    ColumnBlob,
    ColumnBoolean,
    ColumnCounter,
    ColumnDecimal,
    ColumnDouble,
    ColumnFloat,
    ColumnInt,
    ColumnText,
    ColumnTimestamp,
    ColumnUuid,
    ColumnVarChar,
    ColumnVarint,
    ColumnTimeUuid,
    ColumnInet,
    ColumnList,
    ColumnMap,
    ColumnSet,
    ColumnUnknown,
}

/// The column type denoted by a wire type code; unassigned codes map to
/// `ColumnUnknown`.
pub open spec fn spec_cql_column_type(code: u16) -> CqlValueType {
    if code == 0x0000 {
        CqlValueType::ColumnCustom
    } else if code == 0x0001 {
        CqlValueType::ColumnASCII
    } else if code == 0x0002 {
        CqlValueType::ColumnBigInt
    } else if code == 0x0003 {
        CqlValueType::ColumnBlob
    } else if code == 0x0004 {
        CqlValueType::ColumnBoolean
    } else if code == 0x0005 {
        CqlValueType::ColumnCounter
    } else if code == 0x0006 {
        CqlValueType::ColumnDecimal
    } else if code == 0x0007 {
        CqlValueType::ColumnDouble
    } else if code == 0x0008 {
        CqlValueType::ColumnFloat
    } else if code == 0x0009 {
        CqlValueType::ColumnInt
    } else if code == 0x000A {
        CqlValueType::ColumnText
    } else if code == 0x000B {
        CqlValueType::ColumnTimestamp
    } else if code == 0x000C {
        CqlValueType::ColumnUuid
    } else if code == 0x000D {
        CqlValueType::ColumnVarChar
    } else if code == 0x000E {
        CqlValueType::ColumnVarint
    } else if code == 0x000F {
        CqlValueType::ColumnTimeUuid
    } else if code == 0x0010 {
        CqlValueType::ColumnInet
    } else if code == 0x0020 {
        CqlValueType::ColumnList
    } else if code == 0x0021 {
        CqlValueType::ColumnMap
    } else if code == 0x0022 {
        CqlValueType::ColumnSet
    } else {
        CqlValueType::ColumnUnknown
    }
}

/// The column type denoted by a wire type code; unassigned codes map to
/// `ColumnUnknown`.
pub fn cql_column_type(code: u16) -> (r: CqlValueType)
    ensures
        r == spec_cql_column_type(code),
{
    if code == 0x0000 {
        CqlValueType::ColumnCustom
    } else if code == 0x0001 {
        CqlValueType::ColumnASCII
    } else if code == 0x0002 {
        CqlValueType::ColumnBigInt
    } else if code == 0x0003 {
        CqlValueType::ColumnBlob
    } else if code == 0x0004 {
        CqlValueType::ColumnBoolean
    } else if code == 0x0005 {
        CqlValueType::ColumnCounter
    } else if code == 0x0006 {
        CqlValueType::ColumnDecimal
    } else if code == 0x0007 {
        CqlValueType::ColumnDouble
    } else if code == 0x0008 {
        CqlValueType::ColumnFloat
    } else if code == 0x0009 {
        CqlValueType::ColumnInt
    } else if code == 0x000A {
        CqlValueType::ColumnText
    } else if code == 0x000B {
        CqlValueType::ColumnTimestamp
    } else if code == 0x000C {
        CqlValueType::ColumnUuid
    } else if code == 0x000D {
        CqlValueType::ColumnVarChar
    } else if code == 0x000E {
        CqlValueType::ColumnVarint
    } else if code == 0x000F {
        CqlValueType::ColumnTimeUuid
    } else if code == 0x0010 {
        CqlValueType::ColumnInet
    } else if code == 0x0020 {
        CqlValueType::ColumnList
    } else if code == 0x0021 {
        CqlValueType::ColumnMap
    } else if code == 0x0022 {
        CqlValueType::ColumnSet
    } else {
        CqlValueType::ColumnUnknown
    }
}

/// An IP address as plain values: four octets, or eight 16-bit segments.
#[derive(Clone, Copy, Debug, PartialEq, Eq, Structural)]
pub enum CqlIpAddr {
    V4(u8, u8, u8, u8),
    V6(u16, u16, u16, u16, u16, u16, u16, u16),
}

/// An IP address together with a TCP port.
#[derive(Clone, Copy, Debug, PartialEq, Eq, Structural)]
pub struct CqlSocketAddr {
    pub ip: CqlIpAddr,
    pub port: u16,
}

/// A typed column value. A `None` payload is the protocol's null, distinct
/// from an empty payload. `CqlFloat` and `CqlDouble` carry the raw IEEE-754
/// big-endian bit patterns; `CqlUuid` and `CqlTimeUuid` the 16 raw bytes;
/// `CqlVarint` the raw two's-complement big-endian magnitude bytes.
#[derive(Debug, PartialEq)]
pub enum CqlValue {
    CqlASCII(Option<String>),
    CqlVarchar(Option<String>),
    CqlText(Option<String>),
    CqlInt(Option<i32>),
    CqlBigInt(Option<i64>),
    CqlFloat(Option<u32>),
    CqlDouble(Option<u64>),
    CqlBoolean(Option<bool>),
    CqlCounter(Option<i64>),
    CqlTimestamp(Option<u64>),
    CqlBlob(Option<Vec<u8>>),
    CqlUuid(Option<Vec<u8>>),
    CqlTimeUuid(Option<Vec<u8>>),
    CqlVarint(Option<Vec<u8>>),
    CqlInet(Option<CqlIpAddr>),
    CqlList(Option<Vec<CqlValue>>),
    CqlSet(Option<Vec<CqlValue>>),
    CqlMap(Option<Vec<(CqlValue, CqlValue)>>),
    CqlUnknown,
}

/// Metadata of one column of a rows result.
#[derive(Debug, PartialEq)]
pub struct CqlColMetadata {
    pub keyspace: String,
    pub table: String,
    pub col_name: String,
    pub custom_type: Option<String>,
    pub col_type: CqlValueType,
    pub col_type_aux1: CqlValueType,
    pub col_type_aux2: CqlValueType,
}

/// Metadata of a rows result.
#[derive(Debug, PartialEq)]
pub struct CqlMetadata {
    pub flags: u32,
    pub column_count: u32,
    pub keyspace: String,
    pub table: String,
    pub row_metadata: Vec<CqlColMetadata>,
}

/// One decoded row.
#[derive(Debug, PartialEq)]
pub struct CqlRow {
    pub cols: Vec<CqlValue>,
}

/// A decoded rows result.
#[derive(Debug, PartialEq)]
pub struct CqlRows {
    pub metadata: CqlMetadata,
    pub rows: Vec<CqlRow>,
}

/// A prepared statement: the server's opaque id, parameter metadata, and the
/// optional result metadata of protocol revision 2 and above.
#[derive(Debug, PartialEq)]
pub struct CqlPreparedStat {
    pub id: Vec<u8>,
    pub meta: CqlMetadata,
    pub meta_result: Option<CqlMetadata>,
}

/// A frame header as read off the wire (the body length has already been
/// consumed separately).
#[derive(Clone, Copy, Debug, PartialEq, Eq, Structural)]
pub struct CqlFrameHeader {
    pub version: u8,
    pub flags: u8,
    pub stream: i16,
    pub opcode: u8,
}

/// One key/value pair of a string map body.
#[derive(Debug, PartialEq)]
pub struct CqlPair {
    pub key: String,
    pub value: String,
}

/// A string map body, as carried by `Startup`.
#[derive(Debug, PartialEq)]
pub struct CqlStringMap {
    pub pairs: Vec<CqlPair>,
}

/// One statement of a batch: a query string, or a prepared id, either with
/// its bound values.
#[derive(Debug, PartialEq)]
pub enum Query {
    QueryStr(String, Vec<CqlValue>),
    QueryPrepared(Vec<u8>, Vec<CqlValue>),
}

/// The body of a request, by opcode.
#[derive(Debug, PartialEq)]
pub enum CqlRequestBody {
    RequestStartup(CqlStringMap),
    RequestCred(Vec<String>),
    RequestOptions,
    RequestQuery(String, Consistency, u8),
    RequestPrepare(String),
    RequestExec(Vec<u8>, Vec<CqlValue>, Consistency, u8),
    RequestBatch(Vec<Query>, BatchType, Consistency, u8),
    RequestRegister(Vec<String>),
}

/// A request frame before encoding.
#[derive(Debug, PartialEq)]
pub struct CqlRequest {
    pub version: u8,
    pub flags: u8,
    pub stream: i16,
    pub opcode: OpcodeRequest,
    pub body: CqlRequestBody,
}

/// The sub-type of a topology change event.
#[derive(Clone, Copy, Debug, PartialEq, Eq, Structural)]
pub enum TopologyChangeType {
    NewNode,
    RemovedNode,
    MovedNode,
    Unknown,
}

/// The sub-type of a status change event.
#[derive(Clone, Copy, Debug, PartialEq, Eq, Structural)]
pub enum StatusChangeType {
    Up,
    Down,
    UnknownStatus,
}

/// The sub-type of a schema change event.
#[derive(Clone, Copy, Debug, PartialEq, Eq, Structural)]
pub enum SchemaChangeType {
    Created,
    Updated,
    Dropped,
    UnknownChange,
}

/// The target of a schema change event, with its identifiers.
#[derive(Debug, PartialEq)]
pub enum SchemaChangeOptions {
    Keyspace(String),
    Table(String, String),
    Type(String, String),
}

/// A server-pushed event.
#[derive(Debug, PartialEq)]
pub enum CqlEvent {
    TopologyChange(TopologyChangeType, CqlSocketAddr),
    StatusChange(StatusChangeType, CqlSocketAddr),
    SchemaChange(SchemaChangeType, SchemaChangeOptions),
    UnknownEvent,
}

/// The body of a response, by opcode and result kind.
#[derive(Debug, PartialEq)]
pub enum CqlResponseBody {
    ResponseReady,
    ResponseAuth(String),
    ResponseError(u32, String),
    ResultVoid,
    ResultRows(CqlRows),
    ResultKeyspace(String),
    ResultPrepared(CqlPreparedStat),
    ResultSchemaChange(String, String, String),
    ResponseAuthChallenge(Vec<u8>),
    ResponseAuthSuccess(Vec<u8>),
    ResponseEvent(CqlEvent),
    ResultUnknown,
}

/// A decoded response frame.
#[derive(Debug, PartialEq)]
pub struct CqlResponse {
    pub version: u8,
    pub flags: u8,
    pub stream: i16,
    pub opcode: OpcodeResponse,
    pub body: CqlResponseBody,
}

/// The mathematical model of a typed value: strings as character sequences,
/// byte payloads as byte sequences, collections as sequences of models.
pub enum ValueV {
    VAscii(Option<Seq<char>>),
    VVarchar(Option<Seq<char>>),
    VText(Option<Seq<char>>),
    VInt(Option<i32>),
    VBigInt(Option<i64>),
    VFloat(Option<u32>),
    VDouble(Option<u64>),
    VBoolean(Option<bool>),
    VCounter(Option<i64>),
    VTimestamp(Option<u64>),
    VBlob(Option<Seq<u8>>),
    VUuid(Option<Seq<u8>>),
    VTimeUuid(Option<Seq<u8>>),
    VVarint(Option<Seq<u8>>),
    VInet(Option<CqlIpAddr>),
    VList(Option<Seq<ValueV>>),
    VSet(Option<Seq<ValueV>>),
    VMap(Option<Seq<(ValueV, ValueV)>>),
    VUnknown,
}

/// The model of an optional string.
pub open spec fn opt_str(s: Option<String>) -> Option<Seq<char>> {
    match s {
        Some(x) => Some(x@),
        None => None,
    }
}

/// The model of an optional byte payload.
pub open spec fn opt_bytes(b: Option<Vec<u8>>) -> Option<Seq<u8>> {
    match b {
        Some(x) => Some(x@),
        None => None,
    }
}

/// The model of a single (non-collection) typed value. Collections map to
/// `VUnknown` here; the protocol nests them at most one level deep, so a
/// collection never stands where a single value is expected.
pub open spec fn value_model_single(v: CqlValue) -> ValueV {
    match v {
        CqlValue::CqlASCII(s) => ValueV::VAscii(opt_str(s)),
        CqlValue::CqlVarchar(s) => ValueV::VVarchar(opt_str(s)),
        CqlValue::CqlText(s) => ValueV::VText(opt_str(s)),
        CqlValue::CqlInt(x) => ValueV::VInt(x),
        CqlValue::CqlBigInt(x) => ValueV::VBigInt(x),
        CqlValue::CqlFloat(x) => ValueV::VFloat(x),
        CqlValue::CqlDouble(x) => ValueV::VDouble(x),
        CqlValue::CqlBoolean(x) => ValueV::VBoolean(x),
        CqlValue::CqlCounter(x) => ValueV::VCounter(x),
        CqlValue::CqlTimestamp(x) => ValueV::VTimestamp(x),
        CqlValue::CqlBlob(b) => ValueV::VBlob(opt_bytes(b)),
        CqlValue::CqlUuid(b) => ValueV::VUuid(opt_bytes(b)),
        CqlValue::CqlTimeUuid(b) => ValueV::VTimeUuid(opt_bytes(b)),
        CqlValue::CqlVarint(b) => ValueV::VVarint(opt_bytes(b)),
        CqlValue::CqlInet(ip) => ValueV::VInet(ip),
        CqlValue::CqlList(_) => ValueV::VUnknown,
        CqlValue::CqlSet(_) => ValueV::VUnknown,
        CqlValue::CqlMap(_) => ValueV::VUnknown,
        CqlValue::CqlUnknown => ValueV::VUnknown,
    }
}

/// The models of a sequence of single values.
pub open spec fn values_model_single(vs: Seq<CqlValue>) -> Seq<ValueV> {
    Seq::new(vs.len(), |i: int| value_model_single(vs[i]))
}

/// The models of a sequence of map entries of single values.
pub open spec fn pairs_model_single(es: Seq<(CqlValue, CqlValue)>) -> Seq<(ValueV, ValueV)> {
    Seq::new(es.len(), |i: int| (value_model_single(es[i].0), value_model_single(es[i].1)))
}

/// The models of an optional element vector.
pub open spec fn list_opt_model(o: Option<Vec<CqlValue>>) -> Option<Seq<ValueV>> {
    match o {
        Some(items) => Some(values_model_single(items@)),
        None => None,
    }
}

/// The models of an optional entry vector.
pub open spec fn pairs_opt_model(o: Option<Vec<(CqlValue, CqlValue)>>) -> Option<
    Seq<(ValueV, ValueV)>,
> {
    match o {
        Some(entries) => Some(pairs_model_single(entries@)),
        None => None,
    }
}

/// The model of a typed value; the elements of a collection are single
/// values.
pub open spec fn value_model(v: CqlValue) -> ValueV {
    match v {
        CqlValue::CqlList(o) => ValueV::VList(list_opt_model(o)),
        CqlValue::CqlSet(o) => ValueV::VSet(list_opt_model(o)),
        CqlValue::CqlMap(o) => ValueV::VMap(pairs_opt_model(o)),
        _ => value_model_single(v),
    }
}

/// The model of one column's metadata.
pub struct ColMetaV {
    pub keyspace: Seq<char>,
    pub table: Seq<char>,
    pub col_name: Seq<char>,
    pub custom_type: Option<Seq<char>>,
    pub col_type: CqlValueType,
    pub col_type_aux1: CqlValueType,
    pub col_type_aux2: CqlValueType,
}

/// The model of a rows result's metadata.
pub struct MetaV {
    pub flags: u32,
    pub column_count: u32,
    pub keyspace: Seq<char>,
    pub table: Seq<char>,
    pub row_metadata: Seq<ColMetaV>,
}

/// The model of a rows result: metadata and the grid of values.
pub struct RowsV {
    pub metadata: MetaV,
    pub rows: Seq<Seq<ValueV>>,
}

/// The model of a prepared statement.
pub struct PreparedV {
    pub id: Seq<u8>,
    pub meta: MetaV,
    pub meta_result: Option<MetaV>,
}

/// The model of a schema change target with its identifiers.
pub enum SchemaOptV {
    KeyspaceV(Seq<char>),
    TableV(Seq<char>, Seq<char>),
    TypeV(Seq<char>, Seq<char>),
}

/// The model of a server-pushed event.
pub enum EventV {
    TopologyV(TopologyChangeType, CqlSocketAddr),
    StatusV(StatusChangeType, CqlSocketAddr),
    SchemaV(SchemaChangeType, SchemaOptV),
    UnknownV,
}

/// The model of a response body.
pub enum ResponseBodyV {
    ReadyV,
    AuthV(Seq<char>),
    ErrorV(u32, Seq<char>),
    VoidV,
    RowsResultV(RowsV),
    KeyspaceV(Seq<char>),
    PreparedResultV(PreparedV),
    SchemaChangeV(Seq<char>, Seq<char>, Seq<char>),
    AuthChallengeV(Seq<u8>),
    AuthSuccessV(Seq<u8>),
    EventRespV(EventV),
    UnknownRespV,
}

/// The model of a decoded response frame.
pub struct ResponseV {
    pub version: u8,
    pub flags: u8,
    pub stream: i16,
    pub opcode: OpcodeResponse,
    pub body: ResponseBodyV,
}

/// The model of one batch statement.
pub enum QueryV {
    QueryStrV(Seq<char>, Seq<ValueV>),
    QueryPreparedV(Seq<u8>, Seq<ValueV>),
}

/// The model of a request body.
pub enum RequestBodyV {
    StartupV(Seq<(Seq<char>, Seq<char>)>),
    CredV(Seq<Seq<char>>),
    OptionsV,
    QueryReqV(Seq<char>, Consistency, u8),
    PrepareV(Seq<char>),
    ExecV(Seq<u8>, Seq<ValueV>, Consistency, u8),
    BatchV(Seq<QueryV>, BatchType, Consistency, u8),
    RegisterV(Seq<Seq<char>>),
}

/// The model of a request frame.
pub struct RequestV {
    pub version: u8,
    pub flags: u8,
    pub stream: i16,
    pub opcode: OpcodeRequest,
    pub body: RequestBodyV,
}

/// The model of one column's metadata.
pub open spec fn col_meta_model(c: CqlColMetadata) -> ColMetaV {
    ColMetaV {
        keyspace: c.keyspace@,
        table: c.table@,
        col_name: c.col_name@,
        custom_type: opt_str(c.custom_type),
        col_type: c.col_type,
        col_type_aux1: c.col_type_aux1,
        col_type_aux2: c.col_type_aux2,
    }
}

/// The models of a sequence of column metadata entries.
pub open spec fn cols_model(cs: Seq<CqlColMetadata>) -> Seq<ColMetaV> {
    Seq::new(cs.len(), |i: int| col_meta_model(cs[i]))
}

/// The model of a rows result's metadata.
pub open spec fn metadata_model(m: CqlMetadata) -> MetaV {
    MetaV {
        flags: m.flags,
        column_count: m.column_count,
        keyspace: m.keyspace@,
        table: m.table@,
        row_metadata: cols_model(m.row_metadata@),
    }
}

/// The model of one row.
pub open spec fn row_model(r: CqlRow) -> Seq<ValueV> {
    values_model(r.cols@)
}

/// The models of a sequence of rows.
pub open spec fn rows_seq_model(rs: Seq<CqlRow>) -> Seq<Seq<ValueV>> {
    Seq::new(rs.len(), |i: int| row_model(rs[i]))
}

/// The model of a rows result.
pub open spec fn rows_model(r: CqlRows) -> RowsV {
    RowsV {
        metadata: metadata_model(r.metadata),
        rows: rows_seq_model(r.rows@),
    }
}

/// The model of a prepared statement.
pub open spec fn prepared_model(p: CqlPreparedStat) -> PreparedV {
    PreparedV {
        id: p.id@,
        meta: metadata_model(p.meta),
        meta_result: match p.meta_result {
            Some(m) => Some(metadata_model(m)),
            None => None,
        },
    }
}

/// The model of a schema change target.
pub open spec fn schema_opt_model(o: SchemaChangeOptions) -> SchemaOptV {
    match o {
        SchemaChangeOptions::Keyspace(k) => SchemaOptV::KeyspaceV(k@),
        SchemaChangeOptions::Table(k, t) => SchemaOptV::TableV(k@, t@),
        SchemaChangeOptions::Type(k, t) => SchemaOptV::TypeV(k@, t@),
    }
}

/// The model of a server-pushed event.
pub open spec fn event_model(e: CqlEvent) -> EventV {
    match e {
        CqlEvent::TopologyChange(t, a) => EventV::TopologyV(t, a),
        CqlEvent::StatusChange(s, a) => EventV::StatusV(s, a),
        CqlEvent::SchemaChange(s, o) => EventV::SchemaV(s, schema_opt_model(o)),
        CqlEvent::UnknownEvent => EventV::UnknownV,
    }
}

/// The model of a response body.
pub open spec fn response_body_model(b: CqlResponseBody) -> ResponseBodyV {
    match b {
        CqlResponseBody::ResponseReady => ResponseBodyV::ReadyV,
        CqlResponseBody::ResponseAuth(s) => ResponseBodyV::AuthV(s@),
        CqlResponseBody::ResponseError(c, m) => ResponseBodyV::ErrorV(c, m@),
        CqlResponseBody::ResultVoid => ResponseBodyV::VoidV,
        CqlResponseBody::ResultRows(r) => ResponseBodyV::RowsResultV(rows_model(r)),
        CqlResponseBody::ResultKeyspace(s) => ResponseBodyV::KeyspaceV(s@),
        CqlResponseBody::ResultPrepared(p) => ResponseBodyV::PreparedResultV(prepared_model(p)),
        CqlResponseBody::ResultSchemaChange(c, k, t) => ResponseBodyV::SchemaChangeV(c@, k@, t@),
        CqlResponseBody::ResponseAuthChallenge(b) => ResponseBodyV::AuthChallengeV(b@),
        CqlResponseBody::ResponseAuthSuccess(b) => ResponseBodyV::AuthSuccessV(b@),
        CqlResponseBody::ResponseEvent(e) => ResponseBodyV::EventRespV(event_model(e)),
        CqlResponseBody::ResultUnknown => ResponseBodyV::UnknownRespV,
    }
}

/// The model of a decoded response frame.
pub open spec fn response_model(r: CqlResponse) -> ResponseV {
    ResponseV {
        version: r.version,
        flags: r.flags,
        stream: r.stream,
        opcode: r.opcode,
        body: response_body_model(r.body),
    }
}

/// The model of a sequence of typed values.
pub open spec fn values_model(vs: Seq<CqlValue>) -> Seq<ValueV> {
    Seq::new(vs.len(), |i: int| value_model(vs[i]))
}

/// The model of one batch statement.
pub open spec fn query_model(q: Query) -> QueryV {
    match q {
        Query::QueryStr(s, vs) => QueryV::QueryStrV(s@, values_model(vs@)),
        Query::QueryPrepared(id, vs) => QueryV::QueryPreparedV(id@, values_model(vs@)),
    }
}

/// The model of a string map.
pub open spec fn string_map_model(m: CqlStringMap) -> Seq<(Seq<char>, Seq<char>)> {
    Seq::new(m.pairs@.len(), |i: int| (m.pairs@[i].key@, m.pairs@[i].value@))
}

/// The models of a sequence of strings.
pub open spec fn str_list_model(c: Seq<String>) -> Seq<Seq<char>> {
    Seq::new(c.len(), |i: int| c[i]@)
}

/// The models of a sequence of batch statements.
pub open spec fn queries_model(qs: Seq<Query>) -> Seq<QueryV> {
    Seq::new(qs.len(), |i: int| query_model(qs[i]))
}

/// The model of a request body.
pub open spec fn request_body_model(b: CqlRequestBody) -> RequestBodyV {
    match b {
        CqlRequestBody::RequestStartup(m) => RequestBodyV::StartupV(string_map_model(m)),
        CqlRequestBody::RequestCred(c) => RequestBodyV::CredV(str_list_model(c@)),
        CqlRequestBody::RequestOptions => RequestBodyV::OptionsV,
        CqlRequestBody::RequestQuery(q, c, f) => RequestBodyV::QueryReqV(q@, c, f),
        CqlRequestBody::RequestPrepare(q) => RequestBodyV::PrepareV(q@),
        CqlRequestBody::RequestExec(id, vs, c, f) => RequestBodyV::ExecV(
            id@,
            values_model(vs@),
            c,
            f,
        ),
        CqlRequestBody::RequestBatch(qs, t, c, f) => RequestBodyV::BatchV(
            queries_model(qs@),
            t,
            c,
            f,
        ),
        CqlRequestBody::RequestRegister(es) => RequestBodyV::RegisterV(str_list_model(es@)),
    }
}

/// The model of a request frame.
pub open spec fn request_model(r: CqlRequest) -> RequestV {
    RequestV {
        version: r.version,
        flags: r.flags,
        stream: r.stream,
        opcode: r.opcode,
        body: request_body_model(r.body),
    }
}

} // verus!
