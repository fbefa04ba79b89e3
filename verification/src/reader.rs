//! The executable decoder: a byte cursor over one received buffer, with
//! positioned big-endian reads, and the response decoding of the wire
//! protocol. Every reader is proven to agree with the spec-level parsers
//! of the grammar module.

use vstd::prelude::*;

use crate::def::{
    CqlBytesSize, CqlColMetadata, CqlEvent, CqlFrameHeader, CqlIpAddr, CqlMetadata,
    CqlPreparedStat, CqlResponse, CqlResponseBody, CqlRow, CqlRows, CqlSocketAddr, CqlValue,
    CqlValueType, MetaV, OpcodeResponse, RowsV, SchemaChangeOptions, SchemaChangeType,
    StatusChangeType, TopologyChangeType, ValueV, col_meta_model, cols_model, cql_column_type,
    event_model, kind_result_from, list_opt_model, metadata_model, opcode_response, opt_bytes,
    opt_str, pairs_model_single, pairs_opt_model, response_body_model,
    response_model, row_model, rows_model, rows_seq_model, value_model, value_model_single,
    values_model, values_model_single, KindResult,
};
use crate::error::{RCError, RCErrorType, RCResult};
use crate::wire::{can_read, i16_of_u16, i32_of_u32, i64_of_u64, u16_at, u32_at, u64_at};
use crate::grammar::{
    i16_of_u8, spec_ip_of_bytes, spec_read_bytes_opt, spec_read_bytes_raw, spec_read_col,
    spec_read_cols, spec_read_event, spec_read_frame_header, spec_read_inet_with_port,
    spec_frame_extent, spec_read_len, spec_read_metadata, spec_read_pairs, spec_read_response,
    spec_read_response_body, spec_read_row, spec_read_rows, spec_read_rows_n, spec_read_str,
    spec_read_str_nn, spec_read_value, spec_read_value_single, spec_read_values, spec_schema_type,
    spec_status_type, spec_topology_type,
};
use crate::strutil::{eq_str, string_from_utf8};

verus! {

/// A positioned reader over one in-memory buffer holding received bytes.
pub struct CqlReader {
    pub data: Vec<u8>,
    pub pos: usize,
}

impl CqlReader {
    /// The position never passes the end of the buffer.
    pub open spec fn wf(&self) -> bool {
        self.pos as int <= self.data@.len()
    }

    /// Wraps a received buffer, positioned at its start.
    pub fn new(data: Vec<u8>) -> (r: CqlReader)
        ensures
            r.wf(),
            r.data@ == data@,
            r.pos == 0,
    {
        CqlReader { data, pos: 0 }
    }

    /// How many bytes remain.
    pub fn remaining(&self) -> (r: usize)
        requires
            self.wf(),
        ensures
            r == self.data@.len() - self.pos as int,
    {
        self.data.len() - self.pos
    }

    /// Reads one byte.
    pub fn read_u8(&mut self) -> (r: RCResult<u8>)
        requires
            old(self).wf(),
        ensures
            final(self).wf(),
            final(self).data@ == old(self).data@,
            can_read(old(self).data@, old(self).pos as int, 1) ==> (r matches Ok(v)
                && v == old(self).data@[old(self).pos as int]
                && final(self).pos == old(self).pos + 1),
            !can_read(old(self).data@, old(self).pos as int, 1) ==> (r matches Err(e)
                && e.kind == RCErrorType::IOError
                && final(self).pos == old(self).pos),
    {
        if self.data.len() - self.pos >= 1 {
            let v = self.data[self.pos];
            self.pos = self.pos + 1;
            Ok(v)
        } else {
            Err(RCError::new("short read", RCErrorType::IOError))
        }
    }

    /// Reads a big-endian unsigned 16-bit integer.
    pub fn read_u16(&mut self) -> (r: RCResult<u16>)
        requires
            old(self).wf(),
        ensures
            final(self).wf(),
            final(self).data@ == old(self).data@,
            can_read(old(self).data@, old(self).pos as int, 2) ==> (r matches Ok(v)
                && v == u16_at(old(self).data@, old(self).pos as int)
                && final(self).pos == old(self).pos + 2),
            !can_read(old(self).data@, old(self).pos as int, 2) ==> (r matches Err(e)
                && e.kind == RCErrorType::IOError
                && final(self).pos == old(self).pos),
    {
        if self.data.len() - self.pos >= 2 {
            let b0 = self.data[self.pos];
            let b1 = self.data[self.pos + 1];
            self.pos = self.pos + 2;
            Ok((b0 as u16) * 256 + (b1 as u16))
        } else {
            Err(RCError::new("short read", RCErrorType::IOError))
        }
    }

    /// Reads a big-endian unsigned 32-bit integer.
    pub fn read_u32(&mut self) -> (r: RCResult<u32>)
        requires
            old(self).wf(),
        ensures
            final(self).wf(),
            final(self).data@ == old(self).data@,
            can_read(old(self).data@, old(self).pos as int, 4) ==> (r matches Ok(v)
                && v == u32_at(old(self).data@, old(self).pos as int)
                && final(self).pos == old(self).pos + 4),
            !can_read(old(self).data@, old(self).pos as int, 4) ==> (r matches Err(e)
                && e.kind == RCErrorType::IOError
                && final(self).pos == old(self).pos),
    {
        if self.data.len() - self.pos >= 4 {
            let b0 = self.data[self.pos];
            let b1 = self.data[self.pos + 1];
            let b2 = self.data[self.pos + 2];
            let b3 = self.data[self.pos + 3];
            self.pos = self.pos + 4;
            let hi = (b0 as u32) * 256 + (b1 as u32);
            let lo = (b2 as u32) * 256 + (b3 as u32);
            Ok(hi * 65536 + lo)
        } else {
            Err(RCError::new("short read", RCErrorType::IOError))
        }
    }

    /// Reads a big-endian unsigned 64-bit integer.
    pub fn read_u64(&mut self) -> (r: RCResult<u64>)
        requires
            old(self).wf(),
        ensures
            final(self).wf(),
            final(self).data@ == old(self).data@,
            can_read(old(self).data@, old(self).pos as int, 8) ==> (r matches Ok(v)
                && v == u64_at(old(self).data@, old(self).pos as int)
                && final(self).pos == old(self).pos + 8),
            !can_read(old(self).data@, old(self).pos as int, 8) ==> (r matches Err(e)
                && e.kind == RCErrorType::IOError
                && final(self).pos == old(self).pos),
    {
        if self.data.len() - self.pos >= 8 {
            let hi = match self.read_u32() {
                Ok(v) => v,
                Err(e) => {
                    return Err(e);
                },
            };
            match self.read_u32() {
                Ok(lo) => Ok((hi as u64) * 0x1_0000_0000 + (lo as u64)),
                Err(e) => Err(e),
            }
        } else {
            Err(RCError::new("short read", RCErrorType::IOError))
        }
    }

    /// Copies the next `n` bytes out of the buffer.
    pub fn take(&mut self, n: usize) -> (r: RCResult<Vec<u8>>)
        requires
            old(self).wf(),
        ensures
            final(self).wf(),
            final(self).data@ == old(self).data@,
            can_read(old(self).data@, old(self).pos as int, n as int) ==> (r matches Ok(v)
                && v@ == old(self).data@.subrange(
                    old(self).pos as int,
                    old(self).pos + n as int,
                )
                && final(self).pos == old(self).pos + n),
            !can_read(old(self).data@, old(self).pos as int, n as int) ==> (r matches Err(e)
                && e.kind == RCErrorType::IOError
                && final(self).pos == old(self).pos),
    {
        if self.data.len() - self.pos >= n {
            let mut out: Vec<u8> = Vec::new();
            let mut i: usize = 0;
            while i < n
                invariant
                    self.wf(),
                    self.pos + n <= self.data@.len(),
                    self.data@.len() <= usize::MAX,
                    i <= n,
                    out@ =~= self.data@.subrange(self.pos as int, self.pos + i as int),
                decreases n - i,
            {
                out.push(self.data[self.pos + i]);
                i += 1;
                proof {
                    assert(out@ =~= self.data@.subrange(self.pos as int, self.pos + i as int));
                }
            }
            self.pos = self.pos + n;
            Ok(out)
        } else {
            Err(RCError::new("short read", RCErrorType::IOError))
        }
    }
}

impl CqlReader {
    /// Reads a length field of the given width.
    pub fn read_cql_bytes_length(&mut self, sz: CqlBytesSize) -> (r: RCResult<i32>)
        requires
            old(self).wf(),
        ensures
            final(self).wf(),
            final(self).data@ == old(self).data@,
            (match spec_read_len(old(self).data@, old(self).pos as int, sz) {
                Some((n, p1)) => r matches Ok(v) && v == n && final(self).pos == p1,
                None => r matches Err(e) && e.kind == RCErrorType::ReadError,
            }),
    {
        match sz {
            CqlBytesSize::Cqli8 => match self.read_u8() {
                Ok(v) => Ok(v as i32),
                Err(_) => Err(RCError::new("short read in length", RCErrorType::ReadError)),
            },
            CqlBytesSize::Cqli16 => match self.read_u16() {
                Ok(v) => Ok(i16_from_u16(v) as i32),
                Err(_) => Err(RCError::new("short read in length", RCErrorType::ReadError)),
            },
            CqlBytesSize::Cqli32 => match self.read_u32() {
                Ok(v) => Ok(i32_from_u32(v)),
                Err(_) => Err(RCError::new("short read in length", RCErrorType::ReadError)),
            },
        }
    }

    /// Reads a length-prefixed payload; a negative length yields an empty
    /// payload.
    pub fn read_cql_bytes_with_length(&mut self, sz: CqlBytesSize) -> (r: RCResult<Vec<u8>>)
        requires
            old(self).wf(),
        ensures
            final(self).wf(),
            final(self).data@ == old(self).data@,
            (match spec_read_bytes_raw(old(self).data@, old(self).pos as int, sz) {
                Some((pl, p1)) => r matches Ok(v) && v@ == pl && final(self).pos == p1,
                None => r matches Err(e) && e.kind == RCErrorType::ReadError,
            }),
    {
        let n = match self.read_cql_bytes_length(sz) {
            Ok(n) => n,
            Err(e) => {
                return Err(e);
            },
        };
        if n < 0 {
            let out: Vec<u8> = Vec::new();
            proof {
                assert(out@ =~= Seq::<u8>::empty());
            }
            Ok(out)
        } else {
            match self.take(n as usize) {
                Ok(v) => Ok(v),
                Err(_) => Err(RCError::new("short read in payload", RCErrorType::ReadError)),
            }
        }
    }

    /// Reads a length-prefixed payload; a length of -1 is null, any other
    /// negative length is malformed.
    pub fn read_cql_bytes_opt(&mut self, sz: CqlBytesSize) -> (r: RCResult<Option<Vec<u8>>>)
        requires
            old(self).wf(),
        ensures
            final(self).wf(),
            final(self).data@ == old(self).data@,
            (match spec_read_bytes_opt(old(self).data@, old(self).pos as int, sz) {
                Some((pl, p1)) => r matches Ok(v) && opt_bytes(v) == pl && final(self).pos == p1,
                None => r matches Err(e) && e.kind == RCErrorType::ReadError,
            }),
    {
        let n = match self.read_cql_bytes_length(sz) {
            Ok(n) => n,
            Err(e) => {
                return Err(e);
            },
        };
        if n == -1 {
            Ok(None)
        } else if n < 0 {
            Err(RCError::new("negative payload length", RCErrorType::ReadError))
        } else {
            match self.take(n as usize) {
                Ok(v) => Ok(Some(v)),
                Err(_) => Err(RCError::new("short read in payload", RCErrorType::ReadError)),
            }
        }
    }

    /// Reads a length-prefixed string, validating UTF-8.
    pub fn read_cql_str(&mut self, sz: CqlBytesSize) -> (r: RCResult<Option<String>>)
        requires
            old(self).wf(),
        ensures
            final(self).wf(),
            final(self).data@ == old(self).data@,
            (match spec_read_str(old(self).data@, old(self).pos as int, sz) {
                Some((s, p1)) => r matches Ok(v) && opt_str(v) == s && final(self).pos == p1,
                None => r matches Err(e) && e.kind == RCErrorType::ReadError,
            }),
    {
        let pl = match self.read_cql_bytes_opt(sz) {
            Ok(pl) => pl,
            Err(e) => {
                return Err(e);
            },
        };
        match pl {
            None => Ok(None),
            Some(bytes) => match string_from_utf8(bytes) {
                Some(s) => Ok(Some(s)),
                None => Err(
                    RCError::new("invalid utf8 sequence in string", RCErrorType::ReadError),
                ),
            },
        }
    }

    /// Reads a string that may not be null.
    pub fn read_cql_str_nn(&mut self, sz: CqlBytesSize) -> (r: RCResult<String>)
        requires
            old(self).wf(),
        ensures
            final(self).wf(),
            final(self).data@ == old(self).data@,
            (match crate::grammar::spec_read_str_nn(old(self).data@, old(self).pos as int, sz) {
                Some((s, p1)) => r matches Ok(v) && v@ == s && final(self).pos == p1,
                None => r matches Err(e) && e.kind == RCErrorType::ReadError,
            }),
    {
        match self.read_cql_str(sz) {
            Ok(Some(s)) => Ok(s),
            Ok(None) => Err(RCError::new("unexpected null string", RCErrorType::ReadError)),
            Err(e) => Err(e),
        }
    }

    /// Reads an `int` column value: 4 bytes, or null.
    pub fn read_cql_i32(&mut self, sz: CqlBytesSize) -> (r: RCResult<Option<i32>>)
        requires
            old(self).wf(),
        ensures
            final(self).wf(),
            final(self).data@ == old(self).data@,
            (match spec_read_value_single(
                CqlValueType::ColumnInt,
                sz,
                old(self).data@,
                old(self).pos as int,
            ) {
                Some((v, p1)) => r matches Ok(o) && ValueV::VInt(o) == v && final(self).pos == p1,
                None => r matches Err(e) && e.kind == RCErrorType::ReadError,
            }),
    {
        let n = match self.read_cql_bytes_length(sz) {
            Ok(n) => n,
            Err(e) => {
                return Err(e);
            },
        };
        if n == -1 {
            Ok(None)
        } else if n == 4 {
            match self.read_u32() {
                Ok(v) => Ok(Some(i32_from_u32(v))),
                Err(_) => Err(RCError::new("short read in int", RCErrorType::ReadError)),
            }
        } else {
            Err(RCError::new("unexpected length for int", RCErrorType::ReadError))
        }
    }

    /// Reads a `bigint`-shaped 8-byte signed value, or null.
    fn read_i64_payload(&mut self, sz: CqlBytesSize) -> (r: RCResult<Option<i64>>)
        requires
            old(self).wf(),
        ensures
            final(self).wf(),
            final(self).data@ == old(self).data@,
            (match spec_read_len(old(self).data@, old(self).pos as int, sz) {
                Some((n, p1)) => if n == -1 {
                    r matches Ok(o) && o is None && final(self).pos == p1
                } else if n == 8 && can_read(old(self).data@, p1, 8) {
                    r matches Ok(o) && o == Some(i64_of_u64(u64_at(old(self).data@, p1)))
                        && final(self).pos == p1 + 8
                } else {
                    r matches Err(e) && e.kind == RCErrorType::ReadError
                },
                None => r matches Err(e) && e.kind == RCErrorType::ReadError,
            }),
    {
        let n = match self.read_cql_bytes_length(sz) {
            Ok(n) => n,
            Err(e) => {
                return Err(e);
            },
        };
        if n == -1 {
            Ok(None)
        } else if n == 8 {
            match self.read_u64() {
                Ok(v) => Ok(Some(i64_from_u64(v))),
                Err(_) => Err(RCError::new("short read in long", RCErrorType::ReadError)),
            }
        } else {
            Err(RCError::new("unexpected length for long", RCErrorType::ReadError))
        }
    }

    /// Reads a `bigint` column value.
    pub fn read_cql_i64(&mut self, sz: CqlBytesSize) -> (r: RCResult<Option<i64>>)
        requires
            old(self).wf(),
        ensures
            final(self).wf(),
            final(self).data@ == old(self).data@,
            (match spec_read_value_single(
                CqlValueType::ColumnBigInt,
                sz,
                old(self).data@,
                old(self).pos as int,
            ) {
                Some((v, p1)) => r matches Ok(o) && ValueV::VBigInt(o) == v && final(self).pos == p1,
                None => r matches Err(e) && e.kind == RCErrorType::ReadError,
            }),
    {
        self.read_i64_payload(sz)
    }

    /// Reads a `timestamp` column value: a 64-bit unsigned milliseconds
    /// count, or null.
    pub fn read_cql_u64(&mut self, sz: CqlBytesSize) -> (r: RCResult<Option<u64>>)
        requires
            old(self).wf(),
        ensures
            final(self).wf(),
            final(self).data@ == old(self).data@,
            (match spec_read_value_single(
                CqlValueType::ColumnTimestamp,
                sz,
                old(self).data@,
                old(self).pos as int,
            ) {
                Some((v, p1)) => r matches Ok(o) && ValueV::VTimestamp(o) == v && final(self).pos == p1,
                None => r matches Err(e) && e.kind == RCErrorType::ReadError,
            }),
    {
        let n = match self.read_cql_bytes_length(sz) {
            Ok(n) => n,
            Err(e) => {
                return Err(e);
            },
        };
        if n == -1 {
            Ok(None)
        } else if n == 8 {
            match self.read_u64() {
                Ok(v) => Ok(Some(v)),
                Err(_) => Err(RCError::new("short read in timestamp", RCErrorType::ReadError)),
            }
        } else {
            Err(RCError::new("unexpected length for timestamp", RCErrorType::ReadError))
        }
    }

    /// Reads a `float` column value as its IEEE-754 big-endian bits.
    pub fn read_cql_f32(&mut self, sz: CqlBytesSize) -> (r: RCResult<Option<u32>>)
        requires
            old(self).wf(),
        ensures
            final(self).wf(),
            final(self).data@ == old(self).data@,
            (match spec_read_value_single(
                CqlValueType::ColumnFloat,
                sz,
                old(self).data@,
                old(self).pos as int,
            ) {
                Some((v, p1)) => r matches Ok(o) && ValueV::VFloat(o) == v && final(self).pos == p1,
                None => r matches Err(e) && e.kind == RCErrorType::ReadError,
            }),
    {
        let n = match self.read_cql_bytes_length(sz) {
            Ok(n) => n,
            Err(e) => {
                return Err(e);
            },
        };
        if n == -1 {
            Ok(None)
        } else if n == 4 {
            match self.read_u32() {
                Ok(v) => Ok(Some(v)),
                Err(_) => Err(RCError::new("short read in float", RCErrorType::ReadError)),
            }
        } else {
            Err(RCError::new("unexpected length for float", RCErrorType::ReadError))
        }
    }

    /// Reads a `double` column value as its IEEE-754 big-endian bits.
    pub fn read_cql_f64(&mut self, sz: CqlBytesSize) -> (r: RCResult<Option<u64>>)
        requires
            old(self).wf(),
        ensures
            final(self).wf(),
            final(self).data@ == old(self).data@,
            (match spec_read_value_single(
                CqlValueType::ColumnDouble,
                sz,
                old(self).data@,
                old(self).pos as int,
            ) {
                Some((v, p1)) => r matches Ok(o) && ValueV::VDouble(o) == v && final(self).pos == p1,
                None => r matches Err(e) && e.kind == RCErrorType::ReadError,
            }),
    {
        let n = match self.read_cql_bytes_length(sz) {
            Ok(n) => n,
            Err(e) => {
                return Err(e);
            },
        };
        if n == -1 {
            Ok(None)
        } else if n == 8 {
            match self.read_u64() {
                Ok(v) => Ok(Some(v)),
                Err(_) => Err(RCError::new("short read in double", RCErrorType::ReadError)),
            }
        } else {
            Err(RCError::new("unexpected length for double", RCErrorType::ReadError))
        }
    }

    /// Reads a `boolean` column value: one byte, any non-zero is true.
    pub fn read_cql_boolean(&mut self, sz: CqlBytesSize) -> (r: RCResult<Option<bool>>)
        requires
            old(self).wf(),
        ensures
            final(self).wf(),
            final(self).data@ == old(self).data@,
            (match spec_read_value_single(
                CqlValueType::ColumnBoolean,
                sz,
                old(self).data@,
                old(self).pos as int,
            ) {
                Some((v, p1)) => r matches Ok(o) && ValueV::VBoolean(o) == v && final(self).pos == p1,
                None => r matches Err(e) && e.kind == RCErrorType::ReadError,
            }),
    {
        let n = match self.read_cql_bytes_length(sz) {
            Ok(n) => n,
            Err(e) => {
                return Err(e);
            },
        };
        if n == -1 {
            Ok(None)
        } else if n == 1 {
            match self.read_u8() {
                Ok(v) => Ok(Some(v != 0)),
                Err(_) => Err(RCError::new("short read in boolean", RCErrorType::ReadError)),
            }
        } else {
            Err(RCError::new("unexpected length for boolean", RCErrorType::ReadError))
        }
    }

    /// Reads a `blob` column value.
    pub fn read_cql_blob(&mut self, sz: CqlBytesSize) -> (r: RCResult<Option<Vec<u8>>>)
        requires
            old(self).wf(),
        ensures
            final(self).wf(),
            final(self).data@ == old(self).data@,
            (match spec_read_value_single(
                CqlValueType::ColumnBlob,
                sz,
                old(self).data@,
                old(self).pos as int,
            ) {
                Some((v, p1)) => r matches Ok(o) && ValueV::VBlob(opt_bytes(o)) == v && final(self).pos == p1,
                None => r matches Err(e) && e.kind == RCErrorType::ReadError,
            }),
    {
        self.read_cql_bytes_opt(sz)
    }

    /// Reads a `uuid`-shaped value: exactly 16 bytes, or null.
    fn read_uuid_payload(&mut self, sz: CqlBytesSize) -> (r: RCResult<Option<Vec<u8>>>)
        requires
            old(self).wf(),
        ensures
            final(self).wf(),
            final(self).data@ == old(self).data@,
            (match spec_read_bytes_opt(old(self).data@, old(self).pos as int, sz) {
                Some((Some(pl), p1)) => if pl.len() == 16 {
                    r matches Ok(o) && opt_bytes(o) == Some(pl) && final(self).pos == p1
                } else {
                    r matches Err(e) && e.kind == RCErrorType::ReadError
                },
                Some((None, p1)) => r matches Ok(o) && o is None && final(self).pos == p1,
                None => r matches Err(e) && e.kind == RCErrorType::ReadError,
            }),
    {
        let pl = match self.read_cql_bytes_opt(sz) {
            Ok(pl) => pl,
            Err(e) => {
                return Err(e);
            },
        };
        match pl {
            None => Ok(None),
            Some(bytes) => if bytes.len() == 16 {
                Ok(Some(bytes))
            } else {
                Err(RCError::new("invalid uuid length", RCErrorType::ReadError))
            },
        }
    }

    /// Reads a `uuid` column value.
    pub fn read_cql_uuid(&mut self, sz: CqlBytesSize) -> (r: RCResult<Option<Vec<u8>>>)
        requires
            old(self).wf(),
        ensures
            final(self).wf(),
            final(self).data@ == old(self).data@,
            (match spec_read_value_single(
                CqlValueType::ColumnUuid,
                sz,
                old(self).data@,
                old(self).pos as int,
            ) {
                Some((v, p1)) => r matches Ok(o) && ValueV::VUuid(opt_bytes(o)) == v && final(self).pos == p1,
                None => r matches Err(e) && e.kind == RCErrorType::ReadError,
            }),
    {
        self.read_uuid_payload(sz)
    }

    /// Reads a `varint` column value: its raw two's-complement big-endian
    /// bytes; an empty payload is rejected.
    pub fn read_cql_varint(&mut self, sz: CqlBytesSize) -> (r: RCResult<Option<Vec<u8>>>)
        requires
            old(self).wf(),
        ensures
            final(self).wf(),
            final(self).data@ == old(self).data@,
            (match spec_read_value_single(
                CqlValueType::ColumnVarint,
                sz,
                old(self).data@,
                old(self).pos as int,
            ) {
                Some((v, p1)) => r matches Ok(o) && ValueV::VVarint(opt_bytes(o)) == v && final(self).pos == p1,
                None => r matches Err(e) && e.kind == RCErrorType::ReadError,
            }),
    {
        let pl = match self.read_cql_bytes_opt(sz) {
            Ok(pl) => pl,
            Err(e) => {
                return Err(e);
            },
        };
        match pl {
            None => Ok(None),
            Some(bytes) => if bytes.len() > 0 {
                Ok(Some(bytes))
            } else {
                Err(RCError::new("empty varint", RCErrorType::ReadError))
            },
        }
    }

    /// Reads an `inet` column value without a port: 4 or 16 address bytes,
    /// or null.
    pub fn read_cql_inet_no_port(&mut self, sz: CqlBytesSize) -> (r: RCResult<Option<CqlIpAddr>>)
        requires
            old(self).wf(),
        ensures
            final(self).wf(),
            final(self).data@ == old(self).data@,
            (match spec_read_value_single(
                CqlValueType::ColumnInet,
                sz,
                old(self).data@,
                old(self).pos as int,
            ) {
                Some((v, p1)) => r matches Ok(o) && ValueV::VInet(o) == v && final(self).pos == p1,
                None => r matches Err(e) && e.kind == RCErrorType::ReadError,
            }),
    {
        let pl = match self.read_cql_bytes_opt(sz) {
            Ok(pl) => pl,
            Err(e) => {
                return Err(e);
            },
        };
        match pl {
            None => Ok(None),
            Some(bytes) => match ip_from_bytes(&bytes) {
                Some(ip) => Ok(Some(ip)),
                None => Err(RCError::new("invalid inet length", RCErrorType::ReadError)),
            },
        }
    }

    /// Reads an address with its 4-byte signed port; null is rejected.
    pub fn read_cql_inet_with_port(&mut self, sz: CqlBytesSize) -> (r: RCResult<CqlSocketAddr>)
        requires
            old(self).wf(),
        ensures
            final(self).wf(),
            final(self).data@ == old(self).data@,
            (match spec_read_inet_with_port(old(self).data@, old(self).pos as int, sz) {
                Some((a, p1)) => r matches Ok(v) && v == a && final(self).pos == p1,
                None => r matches Err(e) && e.kind == RCErrorType::ReadError,
            }),
    {
        let pl = match self.read_cql_bytes_opt(sz) {
            Ok(Some(pl)) => pl,
            Ok(None) => {
                return Err(RCError::new("null inet address", RCErrorType::ReadError));
            },
            Err(e) => {
                return Err(e);
            },
        };
        let ip = match ip_from_bytes(&pl) {
            Some(ip) => ip,
            None => {
                return Err(RCError::new("invalid inet length", RCErrorType::ReadError));
            },
        };
        let port = match self.read_u32() {
            Ok(v) => i32_from_u32(v),
            Err(_) => {
                return Err(RCError::new("short read in port", RCErrorType::ReadError));
            },
        };
        if 0 <= port && port <= 0xFFFF {
            Ok(CqlSocketAddr { ip, port: port as u16 })
        } else {
            Err(RCError::new("port out of range", RCErrorType::ReadError))
        }
    }

    /// Skips one length-prefixed value.
    pub fn read_cql_skip(&mut self, sz: CqlBytesSize) -> (r: RCResult<()>)
        requires
            old(self).wf(),
        ensures
            final(self).wf(),
            final(self).data@ == old(self).data@,
            (match spec_read_bytes_raw(old(self).data@, old(self).pos as int, sz) {
                Some((_, p1)) => r is Ok && final(self).pos == p1,
                None => r matches Err(e) && e.kind == RCErrorType::ReadError,
            }),
    {
        match self.read_cql_bytes_with_length(sz) {
            Ok(_) => Ok(()),
            Err(e) => Err(e),
        }
    }
}

impl CqlReader {
    /// Reads one single (non-collection) typed value of the given column
    /// type.
    pub fn read_cql_value_single(&mut self, col_type: CqlValueType, sz: CqlBytesSize) -> (r:
        RCResult<CqlValue>)
        requires
            old(self).wf(),
        ensures
            final(self).wf(),
            final(self).data@ == old(self).data@,
            (match spec_read_value_single(col_type, sz, old(self).data@, old(self).pos as int) {
                Some((v, p1)) => r matches Ok(cv) && value_model(cv) == v && value_model_single(cv)
                    == v && final(self).pos == p1,
                None => r matches Err(e) && e.kind == RCErrorType::ReadError,
            }),
    {
        if col_type == CqlValueType::ColumnASCII || col_type == CqlValueType::ColumnVarChar
            || col_type == CqlValueType::ColumnText {
            self.read_value_single_str(col_type, sz)
        } else if col_type == CqlValueType::ColumnInt || col_type == CqlValueType::ColumnBigInt
            || col_type == CqlValueType::ColumnCounter || col_type == CqlValueType::ColumnTimestamp
            || col_type == CqlValueType::ColumnFloat || col_type == CqlValueType::ColumnDouble
            || col_type == CqlValueType::ColumnBoolean {
            self.read_value_single_fixed(col_type, sz)
        } else if col_type == CqlValueType::ColumnBlob || col_type == CqlValueType::ColumnUuid
            || col_type == CqlValueType::ColumnTimeUuid || col_type == CqlValueType::ColumnVarint
            || col_type == CqlValueType::ColumnInet || col_type == CqlValueType::ColumnCustom
            || col_type == CqlValueType::ColumnDecimal {
            self.read_value_single_payload(col_type, sz)
        } else {
            Err(RCError::new("trying to read a non-single value type", RCErrorType::ReadError))
        }
    }

    /// Reads a string-typed single value.
    fn read_value_single_str(&mut self, col_type: CqlValueType, sz: CqlBytesSize) -> (r: RCResult<
        CqlValue,
    >)
        requires
            old(self).wf(),
            col_type == CqlValueType::ColumnASCII || col_type == CqlValueType::ColumnVarChar
                || col_type == CqlValueType::ColumnText,
        ensures
            final(self).wf(),
            final(self).data@ == old(self).data@,
            (match spec_read_value_single(col_type, sz, old(self).data@, old(self).pos as int) {
                Some((v, p1)) => r matches Ok(cv) && value_model(cv) == v && value_model_single(cv)
                    == v && final(self).pos == p1,
                None => r matches Err(e) && e.kind == RCErrorType::ReadError,
            }),
    {
        let s = match self.read_cql_str(sz) {
            Ok(s) => s,
            Err(e) => {
                return Err(e);
            },
        };
        if col_type == CqlValueType::ColumnASCII {
            Ok(CqlValue::CqlASCII(s))
        } else if col_type == CqlValueType::ColumnVarChar {
            Ok(CqlValue::CqlVarchar(s))
        } else {
            Ok(CqlValue::CqlText(s))
        }
    }

    /// Reads a fixed-width single value.
    #[verifier::rlimit(60)]
    fn read_value_single_fixed(&mut self, col_type: CqlValueType, sz: CqlBytesSize) -> (r:
        RCResult<CqlValue>)
        requires
            old(self).wf(),
            col_type == CqlValueType::ColumnInt || col_type == CqlValueType::ColumnBigInt
                || col_type == CqlValueType::ColumnCounter
                || col_type == CqlValueType::ColumnTimestamp
                || col_type == CqlValueType::ColumnFloat || col_type == CqlValueType::ColumnDouble
                || col_type == CqlValueType::ColumnBoolean,
        ensures
            final(self).wf(),
            final(self).data@ == old(self).data@,
            (match spec_read_value_single(col_type, sz, old(self).data@, old(self).pos as int) {
                Some((v, p1)) => r matches Ok(cv) && value_model(cv) == v && value_model_single(cv)
                    == v && final(self).pos == p1,
                None => r matches Err(e) && e.kind == RCErrorType::ReadError,
            }),
    {
        if col_type == CqlValueType::ColumnInt {
            match self.read_cql_i32(sz) {
                Ok(o) => Ok(CqlValue::CqlInt(o)),
                Err(e) => Err(e),
            }
        } else if col_type == CqlValueType::ColumnBigInt {
            match self.read_cql_i64(sz) {
                Ok(o) => Ok(CqlValue::CqlBigInt(o)),
                Err(e) => Err(e),
            }
        } else if col_type == CqlValueType::ColumnCounter {
            match self.read_i64_payload(sz) {
                Ok(o) => Ok(CqlValue::CqlCounter(o)),
                Err(e) => Err(e),
            }
        } else if col_type == CqlValueType::ColumnTimestamp {
            match self.read_cql_u64(sz) {
                Ok(o) => Ok(CqlValue::CqlTimestamp(o)),
                Err(e) => Err(e),
            }
        } else if col_type == CqlValueType::ColumnFloat {
            match self.read_cql_f32(sz) {
                Ok(o) => Ok(CqlValue::CqlFloat(o)),
                Err(e) => Err(e),
            }
        } else if col_type == CqlValueType::ColumnDouble {
            match self.read_cql_f64(sz) {
                Ok(o) => Ok(CqlValue::CqlDouble(o)),
                Err(e) => Err(e),
            }
        } else {
            match self.read_cql_boolean(sz) {
                Ok(o) => Ok(CqlValue::CqlBoolean(o)),
                Err(e) => Err(e),
            }
        }
    }

    /// Reads a payload-shaped single value.
    #[verifier::rlimit(60)]
    fn read_value_single_payload(&mut self, col_type: CqlValueType, sz: CqlBytesSize) -> (r:
        RCResult<CqlValue>)
        requires
            old(self).wf(),
            col_type == CqlValueType::ColumnBlob || col_type == CqlValueType::ColumnUuid
                || col_type == CqlValueType::ColumnTimeUuid
                || col_type == CqlValueType::ColumnVarint || col_type == CqlValueType::ColumnInet
                || col_type == CqlValueType::ColumnCustom
                || col_type == CqlValueType::ColumnDecimal,
        ensures
            final(self).wf(),
            final(self).data@ == old(self).data@,
            (match spec_read_value_single(col_type, sz, old(self).data@, old(self).pos as int) {
                Some((v, p1)) => r matches Ok(cv) && value_model(cv) == v && value_model_single(cv)
                    == v && final(self).pos == p1,
                None => r matches Err(e) && e.kind == RCErrorType::ReadError,
            }),
    {
        if col_type == CqlValueType::ColumnBlob {
            match self.read_cql_blob(sz) {
                Ok(o) => Ok(CqlValue::CqlBlob(o)),
                Err(e) => Err(e),
            }
        } else if col_type == CqlValueType::ColumnUuid {
            match self.read_cql_uuid(sz) {
                Ok(o) => Ok(CqlValue::CqlUuid(o)),
                Err(e) => Err(e),
            }
        } else if col_type == CqlValueType::ColumnTimeUuid {
            match self.read_uuid_payload(sz) {
                Ok(o) => Ok(CqlValue::CqlTimeUuid(o)),
                Err(e) => Err(e),
            }
        } else if col_type == CqlValueType::ColumnVarint {
            match self.read_cql_varint(sz) {
                Ok(o) => Ok(CqlValue::CqlVarint(o)),
                Err(e) => Err(e),
            }
        } else if col_type == CqlValueType::ColumnInet {
            match self.read_cql_inet_no_port(sz) {
                Ok(o) => Ok(CqlValue::CqlInet(o)),
                Err(e) => Err(e),
            }
        } else {
            match self.read_cql_skip(sz) {
                Ok(_) => Ok(CqlValue::CqlUnknown),
                Err(e) => Err(e),
            }
        }
    }

    /// Reads `cnt` single values of one element type.
    #[verifier::rlimit(100)]
    #[verifier::spinoff_prover]
    fn read_value_items(&mut self, t: CqlValueType, sz: CqlBytesSize, cnt: usize) -> (r: RCResult<
        Vec<CqlValue>,
    >)
        requires
            old(self).wf(),
        ensures
            final(self).wf(),
            final(self).data@ == old(self).data@,
            (match spec_read_values(t, sz, old(self).data@, old(self).pos as int, cnt as nat) {
                Some((vs, p1)) => r matches Ok(items) && values_model_single(items@) == vs
                    && final(self).pos == p1,
                None => r matches Err(e) && e.kind == RCErrorType::ReadError,
            }),
    {
        let ghost b = self.data@;
        let ghost p0 = self.pos as int;
        let mut items: Vec<CqlValue> = Vec::new();
        let mut i: usize = 0;
        proof {
            assert(values_model_single(items@) =~= Seq::<ValueV>::empty());
        }
        while i < cnt
            invariant
                self.wf(),
                b == old(self).data@,
                p0 == old(self).pos as int,
                self.data@ == b,
                i <= cnt,
                items@.len() == i,
                spec_read_values(t, sz, b, p0, cnt as nat) == (match spec_read_values(
                    t,
                    sz,
                    b,
                    self.pos as int,
                    (cnt - i) as nat,
                ) {
                    Some((rest, pe)) => Some(
                        ((values_model_single(items@) + rest), pe),
                    ),
                    None => None::<(Seq<ValueV>, int)>,
                }),
            decreases cnt - i,
        {
            let ghost pos_i = self.pos as int;
            let ghost acc = values_model_single(items@);
            match self.read_cql_value_single(t, sz) {
                Ok(cv) => {
                    items.push(cv);
                    i += 1;
                    proof {
                        let v = value_model_single(cv);
                        assert(values_model_single(items@) =~= acc + seq![v]);
                        let m = (cnt - (i - 1)) as nat;
                        assert(spec_read_values(t, sz, b, pos_i, m) == (
                        match spec_read_values(t, sz, b, self.pos as int, (m - 1) as nat) {
                            Some((rest2, pe2)) => Some(((seq![v] + rest2), pe2)),
                            None => None::<(Seq<ValueV>, int)>,
                        }));
                        match spec_read_values(t, sz, b, self.pos as int, (cnt - i) as nat) {
                            Some((rest2, pe2)) => {
                                assert(acc + (seq![v] + rest2) =~= (acc + seq![v]) + rest2);
                            },
                            None => {},
                        }
                    }
                },
                Err(e) => {
                    return Err(e);
                },
            }
        }
        proof {
            assert(spec_read_values(t, sz, b, self.pos as int, 0) == Some(
                (Seq::<ValueV>::empty(), self.pos as int),
            ));
            assert(values_model_single(items@) + Seq::<ValueV>::empty() =~= values_model_single(
                items@,
            ));
        }
        Ok(items)
    }

    /// Reads `cnt` key/value entries of a map.
    #[verifier::rlimit(100)]
    #[verifier::spinoff_prover]
    fn read_pair_items(
        &mut self,
        kt: CqlValueType,
        vt: CqlValueType,
        sz: CqlBytesSize,
        cnt: usize,
    ) -> (r: RCResult<Vec<(CqlValue, CqlValue)>>)
        requires
            old(self).wf(),
        ensures
            final(self).wf(),
            final(self).data@ == old(self).data@,
            (match spec_read_pairs(kt, vt, sz, old(self).data@, old(self).pos as int, cnt as nat) {
                Some((es, p1)) => r matches Ok(entries) && pairs_model_single(entries@) == es
                    && final(self).pos == p1,
                None => r matches Err(e) && e.kind == RCErrorType::ReadError,
            }),
    {
        let ghost b = self.data@;
        let ghost p0 = self.pos as int;
        let mut entries: Vec<(CqlValue, CqlValue)> = Vec::new();
        let mut i: usize = 0;
        proof {
            assert(pairs_model_single(entries@) =~= Seq::<(ValueV, ValueV)>::empty());
        }
        while i < cnt
            invariant
                self.wf(),
                b == old(self).data@,
                p0 == old(self).pos as int,
                self.data@ == b,
                i <= cnt,
                entries@.len() == i,
                spec_read_pairs(kt, vt, sz, b, p0, cnt as nat) == (match spec_read_pairs(
                    kt,
                    vt,
                    sz,
                    b,
                    self.pos as int,
                    (cnt - i) as nat,
                ) {
                    Some((rest, pe)) => Some(
                        ((pairs_model_single(entries@) + rest), pe),
                    ),
                    None => None::<(Seq<(ValueV, ValueV)>, int)>,
                }),
            decreases cnt - i,
        {
            let ghost pos_i = self.pos as int;
            let ghost acc = pairs_model_single(entries@);
            let key = match self.read_cql_value_single(kt, sz) {
                Ok(cv) => cv,
                Err(e) => {
                    return Err(e);
                },
            };
            match self.read_cql_value_single(vt, sz) {
                Ok(cv) => {
                    entries.push((key, cv));
                    i += 1;
                    proof {
                        let kv = (value_model_single(key), value_model_single(cv));
                        assert(pairs_model_single(entries@) =~= acc + seq![kv]);
                        let m = (cnt - (i - 1)) as nat;
                        match spec_read_pairs(kt, vt, sz, b, self.pos as int, (cnt - i) as nat) {
                            Some((rest2, pe2)) => {
                                assert(acc + (seq![kv] + rest2) =~= (acc + seq![kv]) + rest2);
                            },
                            None => {},
                        }
                    }
                },
                Err(e) => {
                    return Err(e);
                },
            }
        }
        proof {
            assert(spec_read_pairs(kt, vt, sz, b, self.pos as int, 0) == Some(
                (Seq::<(ValueV, ValueV)>::empty(), self.pos as int),
            ));
            assert(pairs_model_single(entries@) + Seq::<(ValueV, ValueV)>::empty()
                =~= pairs_model_single(entries@));
        }
        Ok(entries)
    }

    /// Reads the element count of a collection whose total length was not
    /// null; fails on a negative count.
    fn read_collection_count(&mut self, sz: CqlBytesSize) -> (r: RCResult<usize>)
        requires
            old(self).wf(),
        ensures
            final(self).wf(),
            final(self).data@ == old(self).data@,
            (match spec_read_len(old(self).data@, old(self).pos as int, sz) {
                Some((n, p1)) => if n >= 0 {
                    r matches Ok(c) && c == n && final(self).pos == p1
                } else {
                    r matches Err(e) && e.kind == RCErrorType::ReadError
                },
                None => r matches Err(e) && e.kind == RCErrorType::ReadError,
            }),
    {
        let n = match self.read_cql_bytes_length(sz) {
            Ok(n) => n,
            Err(e) => {
                return Err(e);
            },
        };
        if n >= 0 {
            Ok(n as usize)
        } else {
            Err(RCError::new("negative collection count", RCErrorType::ReadError))
        }
    }

    /// Reads a `list` column value: a 4-byte total length, then the element
    /// count and elements in the collection width.
    pub fn read_cql_list(&mut self, col_meta: &CqlColMetadata, sz: CqlBytesSize) -> (r: RCResult<
        Option<Vec<CqlValue>>,
    >)
        requires
            old(self).wf(),
            col_meta.col_type == CqlValueType::ColumnList,
        ensures
            final(self).wf(),
            final(self).data@ == old(self).data@,
            (match spec_read_value(
                col_meta_model(*col_meta),
                sz,
                old(self).data@,
                old(self).pos as int,
            ) {
                Some((v, p1)) => r matches Ok(o) && ValueV::VList(list_opt_model(o)) == v && final(self).pos == p1,
                None => r matches Err(e) && e.kind == RCErrorType::ReadError,
            }),
    {
        let total = match self.read_cql_bytes_length(CqlBytesSize::Cqli32) {
            Ok(n) => n,
            Err(e) => {
                return Err(e);
            },
        };
        if total == -1 {
            return Ok(None);
        }
        if total < 0 {
            return Err(RCError::new("negative list length", RCErrorType::ReadError));
        }
        let cnt = match self.read_collection_count(sz) {
            Ok(c) => c,
            Err(e) => {
                return Err(e);
            },
        };
        match self.read_value_items(col_meta.col_type_aux1, sz, cnt) {
            Ok(items) => Ok(Some(items)),
            Err(e) => Err(e),
        }
    }

    /// Reads a `set` column value.
    pub fn read_cql_set(&mut self, col_meta: &CqlColMetadata, sz: CqlBytesSize) -> (r: RCResult<
        Option<Vec<CqlValue>>,
    >)
        requires
            old(self).wf(),
            col_meta.col_type == CqlValueType::ColumnSet,
        ensures
            final(self).wf(),
            final(self).data@ == old(self).data@,
            (match spec_read_value(
                col_meta_model(*col_meta),
                sz,
                old(self).data@,
                old(self).pos as int,
            ) {
                Some((v, p1)) => r matches Ok(o) && ValueV::VSet(list_opt_model(o)) == v && final(self).pos == p1,
                None => r matches Err(e) && e.kind == RCErrorType::ReadError,
            }),
    {
        let total = match self.read_cql_bytes_length(CqlBytesSize::Cqli32) {
            Ok(n) => n,
            Err(e) => {
                return Err(e);
            },
        };
        if total == -1 {
            return Ok(None);
        }
        if total < 0 {
            return Err(RCError::new("negative set length", RCErrorType::ReadError));
        }
        let cnt = match self.read_collection_count(sz) {
            Ok(c) => c,
            Err(e) => {
                return Err(e);
            },
        };
        match self.read_value_items(col_meta.col_type_aux1, sz, cnt) {
            Ok(items) => Ok(Some(items)),
            Err(e) => Err(e),
        }
    }

    /// Reads a `map` column value.
    pub fn read_cql_map(&mut self, col_meta: &CqlColMetadata, sz: CqlBytesSize) -> (r: RCResult<
        Option<Vec<(CqlValue, CqlValue)>>,
    >)
        requires
            old(self).wf(),
            col_meta.col_type == CqlValueType::ColumnMap,
        ensures
            final(self).wf(),
            final(self).data@ == old(self).data@,
            (match spec_read_value(
                col_meta_model(*col_meta),
                sz,
                old(self).data@,
                old(self).pos as int,
            ) {
                Some((v, p1)) => r matches Ok(o) && ValueV::VMap(pairs_opt_model(o)) == v && final(self).pos == p1,
                None => r matches Err(e) && e.kind == RCErrorType::ReadError,
            }),
    {
        let total = match self.read_cql_bytes_length(CqlBytesSize::Cqli32) {
            Ok(n) => n,
            Err(e) => {
                return Err(e);
            },
        };
        if total == -1 {
            return Ok(None);
        }
        if total < 0 {
            return Err(RCError::new("negative map length", RCErrorType::ReadError));
        }
        let cnt = match self.read_collection_count(sz) {
            Ok(c) => c,
            Err(e) => {
                return Err(e);
            },
        };
        match self.read_pair_items(col_meta.col_type_aux1, col_meta.col_type_aux2, sz, cnt) {
            Ok(entries) => Ok(Some(entries)),
            Err(e) => Err(e),
        }
    }

    /// Reads one value of a column, dispatching on the column type.
    pub fn read_cql_value(&mut self, col_meta: &CqlColMetadata, sz: CqlBytesSize) -> (r: RCResult<
        CqlValue,
    >)
        requires
            old(self).wf(),
        ensures
            final(self).wf(),
            final(self).data@ == old(self).data@,
            (match spec_read_value(
                col_meta_model(*col_meta),
                sz,
                old(self).data@,
                old(self).pos as int,
            ) {
                Some((v, p1)) => r matches Ok(cv) && value_model(cv) == v && final(self).pos == p1,
                None => r matches Err(e) && e.kind == RCErrorType::ReadError,
            }),
    {
        match col_meta.col_type {
            CqlValueType::ColumnList => match self.read_cql_list(col_meta, sz) {
                Ok(o) => Ok(CqlValue::CqlList(o)),
                Err(e) => Err(e),
            },
            CqlValueType::ColumnSet => match self.read_cql_set(col_meta, sz) {
                Ok(o) => Ok(CqlValue::CqlSet(o)),
                Err(e) => Err(e),
            },
            CqlValueType::ColumnMap => match self.read_cql_map(col_meta, sz) {
                Ok(o) => Ok(CqlValue::CqlMap(o)),
                Err(e) => Err(e),
            },
            _ => self.read_cql_value_single(col_meta.col_type, CqlBytesSize::Cqli32),
        }
    }
}

impl CqlReader {
    /// Reads the metadata of one column.
    #[verifier::rlimit(60)]
    fn read_cql_col(&mut self, global: bool, ks: &String, tb: &String) -> (r: RCResult<
        CqlColMetadata,
    >)
        requires
            old(self).wf(),
        ensures
            final(self).wf(),
            final(self).data@ == old(self).data@,
            (match spec_read_col(old(self).data@, old(self).pos as int, global, ks@, tb@) {
                Some((c, p1)) => r matches Ok(cm) && col_meta_model(cm) == c && final(self).pos == p1,
                None => r matches Err(e) && e.kind == RCErrorType::ReadError,
            }),
    {
        let keyspace: String;
        let table: String;
        if global {
            keyspace = ks.clone();
            table = tb.clone();
        } else {
            keyspace = match self.read_cql_str_nn(CqlBytesSize::Cqli16) {
                Ok(s) => s,
                Err(e) => {
                    return Err(e);
                },
            };
            table = match self.read_cql_str_nn(CqlBytesSize::Cqli16) {
                Ok(s) => s,
                Err(e) => {
                    return Err(e);
                },
            };
        }
        let col_name = match self.read_cql_str_nn(CqlBytesSize::Cqli16) {
            Ok(s) => s,
            Err(e) => {
                return Err(e);
            },
        };
        let type_key = match self.read_u16() {
            Ok(v) => v,
            Err(_) => {
                return Err(RCError::new("short read in type key", RCErrorType::ReadError));
            },
        };
        let custom_type: Option<String>;
        if type_key == 0x0000 {
            custom_type = match self.read_cql_str_nn(CqlBytesSize::Cqli16) {
                Ok(s) => Some(s),
                Err(e) => {
                    return Err(e);
                },
            };
        } else {
            custom_type = None;
        }
        let type_aux1: CqlValueType;
        if type_key >= 0x0020 {
            type_aux1 = match self.read_u16() {
                Ok(v) => cql_column_type(v),
                Err(_) => {
                    return Err(
                        RCError::new("short read in element type", RCErrorType::ReadError),
                    );
                },
            };
        } else {
            type_aux1 = CqlValueType::ColumnUnknown;
        }
        let type_aux2: CqlValueType;
        if type_key == 0x0021 {
            type_aux2 = match self.read_u16() {
                Ok(v) => cql_column_type(v),
                Err(_) => {
                    return Err(
                        RCError::new("short read in map value type", RCErrorType::ReadError),
                    );
                },
            };
        } else {
            type_aux2 = CqlValueType::ColumnUnknown;
        }
        Ok(
            CqlColMetadata {
                keyspace,
                table,
                col_name,
                custom_type,
                col_type: cql_column_type(type_key),
                col_type_aux1: type_aux1,
                col_type_aux2: type_aux2,
            },
        )
    }

    /// Reads a rows result's metadata: flags, column count, the optional
    /// global table spec, then one entry per column.
    #[verifier::rlimit(100)]
    #[verifier::spinoff_prover]
    pub fn read_cql_metadata(&mut self) -> (r: RCResult<CqlMetadata>)
        requires
            old(self).wf(),
        ensures
            final(self).wf(),
            final(self).data@ == old(self).data@,
            (match spec_read_metadata(old(self).data@, old(self).pos as int) {
                Some((m, p1)) => r matches Ok(cm) && metadata_model(cm) == m && final(self).pos == p1,
                None => r matches Err(e) && e.kind == RCErrorType::ReadError,
            }),
    {
        let ghost b = self.data@;
        let flags = match self.read_u32() {
            Ok(v) => v,
            Err(_) => {
                return Err(RCError::new("short read in flags", RCErrorType::ReadError));
            },
        };
        let column_count = match self.read_u32() {
            Ok(v) => v,
            Err(_) => {
                return Err(RCError::new("short read in column count", RCErrorType::ReadError));
            },
        };
        let global = flags & 0x0001 != 0;
        let ks: String;
        let tb: String;
        if global {
            ks = match self.read_cql_str_nn(CqlBytesSize::Cqli16) {
                Ok(s) => s,
                Err(e) => {
                    return Err(e);
                },
            };
            tb = match self.read_cql_str_nn(CqlBytesSize::Cqli16) {
                Ok(s) => s,
                Err(e) => {
                    return Err(e);
                },
            };
        } else {
            ks = String::new();
            tb = String::new();
        }
        let ghost p2 = self.pos as int;
        let mut cols: Vec<CqlColMetadata> = Vec::new();
        let mut i: u32 = 0;
        proof {
            assert(cols_model(cols@) =~= Seq::<crate::def::ColMetaV>::empty());
        }
        while i < column_count
            invariant
                self.wf(),
                b == old(self).data@,
                self.data@ == b,
                i <= column_count,
                cols@.len() == i,
                spec_read_metadata(b, old(self).pos as int) == (match spec_read_cols(
                    b,
                    p2,
                    global,
                    ks@,
                    tb@,
                    column_count as nat,
                ) {
                    Some((cs, pe)) => Some(
                        (
                            (MetaV {
                                flags,
                                column_count,
                                keyspace: ks@,
                                table: tb@,
                                row_metadata: cs,
                            }),
                            pe,
                        ),
                    ),
                    None => None::<(MetaV, int)>,
                }),
                spec_read_cols(b, p2, global, ks@, tb@, column_count as nat) == (
                match spec_read_cols(
                    b,
                    self.pos as int,
                    global,
                    ks@,
                    tb@,
                    (column_count - i) as nat,
                ) {
                    Some((rest, pe)) => Some(((cols_model(cols@) + rest), pe)),
                    None => None::<(Seq<crate::def::ColMetaV>, int)>,
                }),
            decreases column_count - i,
        {
            let ghost acc = cols_model(cols@);
            match self.read_cql_col(global, &ks, &tb) {
                Ok(cm) => {
                    cols.push(cm);
                    i = i + 1;
                    proof {
                        let c = col_meta_model(cm);
                        assert(cols_model(cols@) =~= acc + seq![c]);
                        match spec_read_cols(
                            b,
                            self.pos as int,
                            global,
                            ks@,
                            tb@,
                            (column_count - i) as nat,
                        ) {
                            Some((rest2, pe2)) => {
                                assert(acc + (seq![c] + rest2) =~= (acc + seq![c]) + rest2);
                            },
                            None => {},
                        }
                    }
                },
                Err(e) => {
                    return Err(e);
                },
            }
        }
        proof {
            assert(spec_read_cols(b, self.pos as int, global, ks@, tb@, 0) == Some(
                (Seq::<crate::def::ColMetaV>::empty(), self.pos as int),
            ));
            assert(cols_model(cols@) + Seq::<crate::def::ColMetaV>::empty() =~= cols_model(cols@));
        }
        Ok(CqlMetadata { flags, column_count, keyspace: ks, table: tb, row_metadata: cols })
    }

    /// Reads one row: one value per column, in metadata order.
    #[verifier::rlimit(100)]
    #[verifier::spinoff_prover]
    fn read_cql_row(&mut self, cols: &Vec<CqlColMetadata>, sz: CqlBytesSize) -> (r: RCResult<
        CqlRow,
    >)
        requires
            old(self).wf(),
        ensures
            final(self).wf(),
            final(self).data@ == old(self).data@,
            (match spec_read_row(cols_model(cols@), sz, old(self).data@, old(self).pos as int) {
                Some((vs, p1)) => r matches Ok(row) && row_model(row) == vs && final(self).pos == p1,
                None => r matches Err(e) && e.kind == RCErrorType::ReadError,
            }),
    {
        let ghost b = self.data@;
        let ghost p0 = self.pos as int;
        let ghost cm = cols_model(cols@);
        let n = cols.len();
        let mut vals: Vec<CqlValue> = Vec::new();
        let mut j: usize = 0;
        proof {
            assert(values_model(vals@) =~= Seq::<ValueV>::empty());
            assert(cm.skip(0) =~= cm);
        }
        while j < n
            invariant
                self.wf(),
                b == old(self).data@,
                self.data@ == b,
                cm == cols_model(cols@),
                n == cols@.len(),
                j <= n,
                vals@.len() == j,
                p0 == old(self).pos as int,
                spec_read_row(cm, sz, b, p0) == (match spec_read_row(
                    cm.skip(j as int),
                    sz,
                    b,
                    self.pos as int,
                ) {
                    Some((rest, pe)) => Some(((values_model(vals@) + rest), pe)),
                    None => None::<(Seq<ValueV>, int)>,
                }),
            decreases n - j,
        {
            let ghost acc = values_model(vals@);
            proof {
                assert(cm.skip(j as int).len() == n - j);
                assert(cm.skip(j as int)[0] == cm[j as int]);
                assert(cm[j as int] == col_meta_model(cols@[j as int]));
            }
            match self.read_cql_value(&cols[j], sz) {
                Ok(cv) => {
                    vals.push(cv);
                    j = j + 1;
                    proof {
                        let v = value_model(cv);
                        assert(values_model(vals@) =~= acc + seq![v]);
                        assert(cm.skip(j - 1).drop_first() =~= cm.skip(j as int));
                        match spec_read_row(cm.skip(j as int), sz, b, self.pos as int) {
                            Some((rest2, pe2)) => {
                                assert(acc + (seq![v] + rest2) =~= (acc + seq![v]) + rest2);
                            },
                            None => {},
                        }
                    }
                },
                Err(e) => {
                    return Err(e);
                },
            }
        }
        proof {
            assert(cm.skip(n as int) =~= Seq::<crate::def::ColMetaV>::empty());
            assert(spec_read_row(cm.skip(n as int), sz, b, self.pos as int) == Some(
                (Seq::<ValueV>::empty(), self.pos as int),
            ));
            assert(values_model(vals@) + Seq::<ValueV>::empty() =~= values_model(vals@));
        }
        Ok(CqlRow { cols: vals })
    }

    /// Reads a rows result: metadata, a 4-byte row count, then the grid of
    /// values, with collection fields sized by the given width.
    #[verifier::rlimit(100)]
    #[verifier::spinoff_prover]
    pub fn read_cql_rows(&mut self, collection_size: CqlBytesSize) -> (r: RCResult<CqlRows>)
        requires
            old(self).wf(),
        ensures
            final(self).wf(),
            final(self).data@ == old(self).data@,
            (match spec_read_rows(old(self).data@, old(self).pos as int, collection_size) {
                Some((rv, p1)) => r matches Ok(rows) && rows_model(rows) == rv && final(self).pos == p1,
                None => r matches Err(e) && e.kind == RCErrorType::ReadError,
            }),
    {
        let ghost b = self.data@;
        let metadata = match self.read_cql_metadata() {
            Ok(m) => m,
            Err(e) => {
                return Err(e);
            },
        };
        let rows_count = match self.read_u32() {
            Ok(v) => v,
            Err(_) => {
                return Err(RCError::new("short read in row count", RCErrorType::ReadError));
            },
        };
        let ghost p1 = self.pos as int;
        let ghost cm = cols_model(metadata.row_metadata@);
        let mut rows: Vec<CqlRow> = Vec::new();
        let mut i: u32 = 0;
        proof {
            assert(rows_seq_model(rows@) =~= Seq::<Seq<ValueV>>::empty());
        }
        while i < rows_count
            invariant
                self.wf(),
                b == old(self).data@,
                self.data@ == b,
                cm == cols_model(metadata.row_metadata@),
                i <= rows_count,
                rows@.len() == i,
                spec_read_rows(b, old(self).pos as int, collection_size) == (
                match spec_read_rows_n(cm, collection_size, b, p1, rows_count as nat) {
                    Some((rs, pe)) => Some(
                        ((RowsV { metadata: metadata_model(metadata), rows: rs }), pe),
                    ),
                    None => None::<(RowsV, int)>,
                }),
                spec_read_rows_n(cm, collection_size, b, p1, rows_count as nat) == (
                match spec_read_rows_n(
                    cm,
                    collection_size,
                    b,
                    self.pos as int,
                    (rows_count - i) as nat,
                ) {
                    Some((rest, pe)) => Some(((rows_seq_model(rows@) + rest), pe)),
                    None => None::<(Seq<Seq<ValueV>>, int)>,
                }),
            decreases rows_count - i,
        {
            let ghost acc = rows_seq_model(rows@);
            match self.read_cql_row(&metadata.row_metadata, collection_size) {
                Ok(row) => {
                    rows.push(row);
                    i = i + 1;
                    proof {
                        let rv = row_model(row);
                        assert(rows_seq_model(rows@) =~= acc + seq![rv]);
                        match spec_read_rows_n(
                            cm,
                            collection_size,
                            b,
                            self.pos as int,
                            (rows_count - i) as nat,
                        ) {
                            Some((rest2, pe2)) => {
                                assert(acc + (seq![rv] + rest2) =~= (acc + seq![rv]) + rest2);
                            },
                            None => {},
                        }
                    }
                },
                Err(e) => {
                    return Err(e);
                },
            }
        }
        proof {
            assert(spec_read_rows_n(cm, collection_size, b, self.pos as int, 0) == Some(
                (Seq::<Seq<ValueV>>::empty(), self.pos as int),
            ));
            assert(rows_seq_model(rows@) + Seq::<Seq<ValueV>>::empty() =~= rows_seq_model(rows@));
        }
        Ok(CqlRows { metadata, rows })
    }
}

/// The topology change sub-type named by a string.
pub fn topology_type_from(s: &str) -> (r: TopologyChangeType)
    ensures
        r == spec_topology_type(s@),
{
    if eq_str(s, "NEW_NODE") {
        TopologyChangeType::NewNode
    } else if eq_str(s, "REMOVED_NODE") {
        TopologyChangeType::RemovedNode
    } else if eq_str(s, "MOVED_NODE") {
        TopologyChangeType::MovedNode
    } else {
        TopologyChangeType::Unknown
    }
}

/// The status change sub-type named by a string.
pub fn status_type_from(s: &str) -> (r: StatusChangeType)
    ensures
        r == spec_status_type(s@),
{
    if eq_str(s, "UP") {
        StatusChangeType::Up
    } else if eq_str(s, "DOWN") {
        StatusChangeType::Down
    } else {
        StatusChangeType::UnknownStatus
    }
}

/// The schema change sub-type named by a string.
pub fn schema_type_from(s: &str) -> (r: SchemaChangeType)
    ensures
        r == spec_schema_type(s@),
{
    if eq_str(s, "CREATED") {
        SchemaChangeType::Created
    } else if eq_str(s, "UPDATED") {
        SchemaChangeType::Updated
    } else if eq_str(s, "DROPPED") {
        SchemaChangeType::Dropped
    } else {
        SchemaChangeType::UnknownChange
    }
}

impl CqlReader {
    /// Reads an event body: the event kind string, its change sub-type,
    /// and an address or schema change identifiers.
    #[verifier::rlimit(100)]
    #[verifier::spinoff_prover]
    pub fn read_cql_event(&mut self) -> (r: RCResult<CqlEvent>)
        requires
            old(self).wf(),
        ensures
            final(self).wf(),
            final(self).data@ == old(self).data@,
            (match spec_read_event(old(self).data@, old(self).pos as int) {
                Some((ev, p1)) => r matches Ok(e) && event_model(e) == ev && final(self).pos == p1,
                None => r matches Err(e) && e.kind == RCErrorType::ReadError,
            }),
    {
        let kind = match self.read_cql_str_nn(CqlBytesSize::Cqli16) {
            Ok(s) => s,
            Err(e) => {
                return Err(e);
            },
        };
        if eq_str(kind.as_str(), "TOPOLOGY_CHANGE") {
            let ct = match self.read_cql_str_nn(CqlBytesSize::Cqli16) {
                Ok(s) => s,
                Err(e) => {
                    return Err(e);
                },
            };
            let addr = match self.read_cql_inet_with_port(CqlBytesSize::Cqli8) {
                Ok(a) => a,
                Err(e) => {
                    return Err(e);
                },
            };
            Ok(CqlEvent::TopologyChange(topology_type_from(ct.as_str()), addr))
        } else if eq_str(kind.as_str(), "STATUS_CHANGE") {
            let ct = match self.read_cql_str_nn(CqlBytesSize::Cqli16) {
                Ok(s) => s,
                Err(e) => {
                    return Err(e);
                },
            };
            let addr = match self.read_cql_inet_with_port(CqlBytesSize::Cqli8) {
                Ok(a) => a,
                Err(e) => {
                    return Err(e);
                },
            };
            Ok(CqlEvent::StatusChange(status_type_from(ct.as_str()), addr))
        } else if eq_str(kind.as_str(), "SCHEMA_CHANGE") {
            let ct = match self.read_cql_str_nn(CqlBytesSize::Cqli16) {
                Ok(s) => s,
                Err(e) => {
                    return Err(e);
                },
            };
            let target = match self.read_cql_str_nn(CqlBytesSize::Cqli16) {
                Ok(s) => s,
                Err(e) => {
                    return Err(e);
                },
            };
            if eq_str(target.as_str(), "KEYSPACE") {
                let k = match self.read_cql_str_nn(CqlBytesSize::Cqli16) {
                    Ok(s) => s,
                    Err(e) => {
                        return Err(e);
                    },
                };
                Ok(
                    CqlEvent::SchemaChange(
                        schema_type_from(ct.as_str()),
                        SchemaChangeOptions::Keyspace(k),
                    ),
                )
            } else if eq_str(target.as_str(), "TABLE") {
                let k = match self.read_cql_str_nn(CqlBytesSize::Cqli16) {
                    Ok(s) => s,
                    Err(e) => {
                        return Err(e);
                    },
                };
                let t = match self.read_cql_str_nn(CqlBytesSize::Cqli16) {
                    Ok(s) => s,
                    Err(e) => {
                        return Err(e);
                    },
                };
                Ok(
                    CqlEvent::SchemaChange(
                        schema_type_from(ct.as_str()),
                        SchemaChangeOptions::Table(k, t),
                    ),
                )
            } else if eq_str(target.as_str(), "TYPE") {
                let k = match self.read_cql_str_nn(CqlBytesSize::Cqli16) {
                    Ok(s) => s,
                    Err(e) => {
                        return Err(e);
                    },
                };
                let t = match self.read_cql_str_nn(CqlBytesSize::Cqli16) {
                    Ok(s) => s,
                    Err(e) => {
                        return Err(e);
                    },
                };
                Ok(
                    CqlEvent::SchemaChange(
                        schema_type_from(ct.as_str()),
                        SchemaChangeOptions::Type(k, t),
                    ),
                )
            } else {
                Err(RCError::new("unknown schema change target", RCErrorType::ReadError))
            }
        } else {
            Err(RCError::new("unknown event type", RCErrorType::ReadError))
        }
    }

    /// Reads a frame header: the stream id is one byte below revision 3,
    /// two bytes from revision 3 on, both signed.
    pub fn read_cql_frame_header(&mut self, version: u8) -> (r: RCResult<CqlFrameHeader>)
        requires
            old(self).wf(),
        ensures
            final(self).wf(),
            final(self).data@ == old(self).data@,
            (match spec_read_frame_header(old(self).data@, old(self).pos as int, version) {
                Some((h, p1)) => r matches Ok(v) && v == h && final(self).pos == p1,
                None => r matches Err(e) && e.kind == RCErrorType::ReadError,
            }),
    {
        if version >= 3 {
            if self.remaining() < 5 {
                return Err(RCError::new("short read in frame header", RCErrorType::ReadError));
            }
            let vh = match self.read_u8() {
                Ok(v) => v,
                Err(e) => {
                    return Err(e);
                },
            };
            let fl = match self.read_u8() {
                Ok(v) => v,
                Err(e) => {
                    return Err(e);
                },
            };
            let su = match self.read_u16() {
                Ok(v) => v,
                Err(e) => {
                    return Err(e);
                },
            };
            let op = match self.read_u8() {
                Ok(v) => v,
                Err(e) => {
                    return Err(e);
                },
            };
            Ok(CqlFrameHeader { version: vh, flags: fl, stream: i16_from_u16(su), opcode: op })
        } else {
            if self.remaining() < 4 {
                return Err(RCError::new("short read in frame header", RCErrorType::ReadError));
            }
            let vh = match self.read_u8() {
                Ok(v) => v,
                Err(e) => {
                    return Err(e);
                },
            };
            let fl = match self.read_u8() {
                Ok(v) => v,
                Err(e) => {
                    return Err(e);
                },
            };
            let sb = match self.read_u8() {
                Ok(v) => v,
                Err(e) => {
                    return Err(e);
                },
            };
            let op = match self.read_u8() {
                Ok(v) => v,
                Err(e) => {
                    return Err(e);
                },
            };
            Ok(CqlFrameHeader { version: vh, flags: fl, stream: i16_from_u8(sb), opcode: op })
        }
    }

    /// Decodes one response frame: the header, the 4-byte body length, then
    /// the body taken from exactly that many bytes. Whenever a whole frame
    /// is present the reader always lands on the next frame boundary, even
    /// when the body fails to parse — a decode error never desynchronizes
    /// the connection.
    pub fn read_cql_response(&mut self, version: u8) -> (r: RCResult<CqlResponse>)
        requires
            old(self).wf(),
        ensures
            final(self).wf(),
            final(self).data@ == old(self).data@,
            (match spec_read_response(old(self).data@, old(self).pos as int, version) {
                Some((rv, p1)) => r matches Ok(resp) && response_model(resp) == rv && final(self).pos == p1,
                None => r matches Err(e) && e.kind == RCErrorType::ReadError,
            }),
            (match spec_frame_extent(old(self).data@, old(self).pos as int, version) {
                Some(pend) => final(self).pos == pend,
                None => true,
            }),
    {
        let header = match self.read_cql_frame_header(version) {
            Ok(h) => h,
            Err(e) => {
                return Err(e);
            },
        };
        let blen = match self.read_cql_bytes_length(CqlBytesSize::Cqli32) {
            Ok(n) => n,
            Err(e) => {
                return Err(e);
            },
        };
        let body: Vec<u8>;
        if blen < 0 {
            body = Vec::new();
            proof {
                assert(body@ =~= Seq::<u8>::empty());
            }
        } else {
            body = match self.take(blen as usize) {
                Ok(v) => v,
                Err(_) => {
                    return Err(RCError::new("short read in body", RCErrorType::ReadError));
                },
            };
        }
        let op = opcode_response(header.opcode);
        match read_cql_response_body(op, version, body) {
            Ok(bd) => Ok(
                CqlResponse {
                    version: header.version,
                    flags: header.flags,
                    stream: header.stream,
                    opcode: op,
                    body: bd,
                },
            ),
            Err(e) => Err(e),
        }
    }
}

/// Decodes a response body of the given opcode from its own buffer.
#[verifier::rlimit(100)]
#[verifier::spinoff_prover]
fn read_cql_response_body(op: OpcodeResponse, version: u8, body: Vec<u8>) -> (r: RCResult<
    CqlResponseBody,
>)
    ensures
        (match spec_read_response_body(op, version, body@) {
            Some(bv) => r matches Ok(cb) && response_body_model(cb) == bv,
            None => r matches Err(e) && e.kind == RCErrorType::ReadError,
        }),
{
    let mut rd = CqlReader::new(body);
    match op {
        OpcodeResponse::OpcodeReady => Ok(CqlResponseBody::ResponseReady),
        OpcodeResponse::OpcodeAuthenticate => match rd.read_cql_str_nn(CqlBytesSize::Cqli16) {
            Ok(s) => Ok(CqlResponseBody::ResponseAuth(s)),
            Err(e) => Err(e),
        },
        OpcodeResponse::OpcodeError => {
            let code = match rd.read_u32() {
                Ok(v) => v,
                Err(_) => {
                    return Err(RCError::new("short read in error code", RCErrorType::ReadError));
                },
            };
            match rd.read_cql_str_nn(CqlBytesSize::Cqli16) {
                Ok(m) => Ok(CqlResponseBody::ResponseError(code, m)),
                Err(e) => Err(e),
            }
        },
        OpcodeResponse::OpcodeResult => read_cql_result_body(rd, version),
        OpcodeResponse::OpcodeAuthChallenge => match rd.read_cql_bytes_opt(CqlBytesSize::Cqli16) {
            Ok(Some(pl)) => Ok(CqlResponseBody::ResponseAuthChallenge(pl)),
            Ok(None) => Err(RCError::new("null auth challenge", RCErrorType::ReadError)),
            Err(e) => Err(e),
        },
        OpcodeResponse::OpcodeAuthSuccess => match rd.read_cql_bytes_opt(CqlBytesSize::Cqli16) {
            Ok(Some(pl)) => Ok(CqlResponseBody::ResponseAuthSuccess(pl)),
            Ok(None) => Err(RCError::new("null auth success", RCErrorType::ReadError)),
            Err(e) => Err(e),
        },
        OpcodeResponse::OpcodeEvent => match rd.read_cql_event() {
            Ok(e) => Ok(CqlResponseBody::ResponseEvent(e)),
            Err(e) => Err(e),
        },
        OpcodeResponse::OpcodeSupported => Ok(CqlResponseBody::ResultUnknown),
        OpcodeResponse::OpcodeUnknown => Err(
            RCError::new("unknown response opcode", RCErrorType::ReadError),
        ),
    }
}

/// Decodes a `Result` body: the kind discriminator picks the sub-parser.
#[verifier::rlimit(100)]
#[verifier::spinoff_prover]
fn read_cql_result_body(reader: CqlReader, version: u8) -> (r: RCResult<CqlResponseBody>)
    requires
        reader.wf(),
        reader.pos == 0,
    ensures
        (match spec_read_response_body(OpcodeResponse::OpcodeResult, version, reader.data@) {
            Some(bv) => r matches Ok(cb) && response_body_model(cb) == bv,
            None => r matches Err(e) && e.kind == RCErrorType::ReadError,
        }),
{
    let mut rd = reader;
    let kind = match rd.read_u32() {
        Ok(v) => v,
        Err(_) => {
            return Err(RCError::new("short read in result kind", RCErrorType::ReadError));
        },
    };
    match kind_result_from(kind) {
        None => Err(RCError::new("unknown result kind", RCErrorType::ReadError)),
        Some(KindResult::KindVoid) => Ok(CqlResponseBody::ResultVoid),
        Some(KindResult::KindRows) => {
            let sz = if version >= 3 {
                CqlBytesSize::Cqli32
            } else {
                CqlBytesSize::Cqli16
            };
            match rd.read_cql_rows(sz) {
                Ok(rows) => Ok(CqlResponseBody::ResultRows(rows)),
                Err(e) => Err(e),
            }
        },
        Some(KindResult::KindSetKeyspace) => match rd.read_cql_str_nn(CqlBytesSize::Cqli16) {
            Ok(s) => Ok(CqlResponseBody::ResultKeyspace(s)),
            Err(e) => Err(e),
        },
        Some(KindResult::KindSchemaChange) => {
            let c = match rd.read_cql_str_nn(CqlBytesSize::Cqli16) {
                Ok(s) => s,
                Err(e) => {
                    return Err(e);
                },
            };
            let k = match rd.read_cql_str_nn(CqlBytesSize::Cqli16) {
                Ok(s) => s,
                Err(e) => {
                    return Err(e);
                },
            };
            match rd.read_cql_str_nn(CqlBytesSize::Cqli16) {
                Ok(t) => Ok(CqlResponseBody::ResultSchemaChange(c, k, t)),
                Err(e) => Err(e),
            }
        },
        Some(KindResult::KindPrepared) => {
            let id = match rd.read_cql_bytes_opt(CqlBytesSize::Cqli16) {
                Ok(Some(id)) => id,
                Ok(None) => {
                    return Err(RCError::new("null prepared id", RCErrorType::ReadError));
                },
                Err(e) => {
                    return Err(e);
                },
            };
            let meta = match rd.read_cql_metadata() {
                Ok(m) => m,
                Err(e) => {
                    return Err(e);
                },
            };
            let meta_result: Option<CqlMetadata>;
            if version >= 2 {
                meta_result = match rd.read_cql_metadata() {
                    Ok(m) => Some(m),
                    Err(e) => {
                        return Err(e);
                    },
                };
            } else {
                meta_result = None;
            }
            Ok(
                CqlResponseBody::ResultPrepared(
                    CqlPreparedStat { id, meta, meta_result },
                ),
            )
        },
    }
}

/// The address held by a 4- or 16-byte payload.
pub fn ip_from_bytes(pl: &Vec<u8>) -> (r: Option<CqlIpAddr>)
    ensures
        r == spec_ip_of_bytes(pl@),
{
    if pl.len() == 4 {
        Some(CqlIpAddr::V4(pl[0], pl[1], pl[2], pl[3]))
    } else if pl.len() == 16 {
        let s0 = (pl[0] as u16) * 256 + (pl[1] as u16);
        let s1 = (pl[2] as u16) * 256 + (pl[3] as u16);
        let s2 = (pl[4] as u16) * 256 + (pl[5] as u16);
        let s3 = (pl[6] as u16) * 256 + (pl[7] as u16);
        let s4 = (pl[8] as u16) * 256 + (pl[9] as u16);
        let s5 = (pl[10] as u16) * 256 + (pl[11] as u16);
        let s6 = (pl[12] as u16) * 256 + (pl[13] as u16);
        let s7 = (pl[14] as u16) * 256 + (pl[15] as u16);
        Some(CqlIpAddr::V6(s0, s1, s2, s3, s4, s5, s6, s7))
    } else {
        None
    }
}

/// The signed reading of an unsigned 16-bit carrier.
pub fn i16_from_u16(x: u16) -> (r: i16)
    ensures
        r == i16_of_u16(x),
{
    if x < 0x8000 {
        x as i16
    } else {
        ((x as i32) - 0x1_0000) as i16
    }
}

/// The signed reading of an unsigned 32-bit carrier.
pub fn i32_from_u32(x: u32) -> (r: i32)
    ensures
        r == i32_of_u32(x),
{
    if x < 0x8000_0000 {
        x as i32
    } else {
        ((x as i64) - 0x1_0000_0000) as i32
    }
}

/// The signed reading of an unsigned 64-bit carrier.
pub fn i64_from_u64(x: u64) -> (r: i64)
    ensures
        r == i64_of_u64(x),
{
    if x < 0x8000_0000_0000_0000 {
        x as i64
    } else {
        (((x as i128) - 0x1_0000_0000_0000_0000) as i64)
    }
}

/// The byte length of a frame header for a protocol revision: four
/// bytes below revision 3, five from it on.
pub fn frame_header_len(version: u8) -> (r: usize)
    ensures
        r == (if version >= 3 {
            5int
        } else {
            4int
        }),
{
    if version >= 3 {
        5
    } else {
        4
    }
}

/// A single byte sign-extended to a stream id.
pub fn i16_from_u8(x: u8) -> (r: i16)
    ensures
        r == i16_of_u8(x),
{
    if x < 0x80 {
        x as i16
    } else {
        ((x as i16) - 0x100) as i16
    }
}

} // verus!
