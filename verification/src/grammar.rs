//! The wire grammar, stated mathematically: spec-level parsers over byte
//! sequences. Each parser returns the parsed model and the position after
//! it, or `None` where the bytes are malformed. The executable decoder is
//! proven to agree with these parsers exactly.

use vstd::prelude::*;
use vstd::utf8::{decode_utf8, valid_utf8};

use crate::def::{
    ColMetaV, CqlBytesSize, CqlFrameHeader, CqlIpAddr, CqlSocketAddr, CqlValueType,
    EventV, KindResult, MetaV, OpcodeRequest, OpcodeResponse, PreparedV, QueryV, RequestBodyV,
    RequestV, ResponseBodyV, ResponseV, RowsV, SchemaChangeType, SchemaOptV, StatusChangeType,
    TopologyChangeType, ValueV, spec_batch_type_from, spec_consistency_from, spec_cql_column_type,
    spec_kind_result_from, spec_opcode_request_from, spec_opcode_response,
};
use crate::wire::{can_read, i16_of_u16, i32_of_u32, i64_of_u64, u16_at, u32_at, u64_at};

verus! {

/// The signed reading of a single byte widened to a stream id.
pub open spec fn i16_of_u8(x: u8) -> i16 {
    if x < 0x80 {
        x as i16
    } else {
        (x as int - 0x100) as i16
    }
}

/// Parses a length field of the given width.
pub open spec fn spec_read_len(b: Seq<u8>, p: int, sz: CqlBytesSize) -> Option<(i32, int)> {
    match sz {
        CqlBytesSize::Cqli8 => if can_read(b, p, 1) {
            Some((b[p] as i32, p + 1))
        } else {
            None
        },
        CqlBytesSize::Cqli16 => if can_read(b, p, 2) {
            Some((i16_of_u16(u16_at(b, p)) as i32, p + 2))
        } else {
            None
        },
        CqlBytesSize::Cqli32 => if can_read(b, p, 4) {
            Some((i32_of_u32(u32_at(b, p)), p + 4))
        } else {
            None
        },
    }
}

/// Parses a length-prefixed payload; a length of -1 is null, any other
/// negative length is malformed.
pub open spec fn spec_read_bytes_opt(b: Seq<u8>, p: int, sz: CqlBytesSize) -> Option<
    (Option<Seq<u8>>, int),
> {
    match spec_read_len(b, p, sz) {
        Some((n, p1)) => if n == -1 {
            Some((None, p1))
        } else if n < 0 {
            None
        } else if can_read(b, p1, n as int) {
            Some((Some(b.subrange(p1, p1 + n)), p1 + n))
        } else {
            None
        },
        None => None,
    }
}

/// Parses a length-prefixed payload where a negative length stands for an
/// empty payload (used when skipping a value).
pub open spec fn spec_read_bytes_raw(b: Seq<u8>, p: int, sz: CqlBytesSize) -> Option<
    (Seq<u8>, int),
> {
    match spec_read_len(b, p, sz) {
        Some((n, p1)) => if n < 0 {
            Some((Seq::empty(), p1))
        } else if can_read(b, p1, n as int) {
            Some((b.subrange(p1, p1 + n), p1 + n))
        } else {
            None
        },
        None => None,
    }
}

/// Parses a length-prefixed string; the payload must be valid UTF-8.
pub open spec fn spec_read_str(b: Seq<u8>, p: int, sz: CqlBytesSize) -> Option<
    (Option<Seq<char>>, int),
> {
    match spec_read_bytes_opt(b, p, sz) {
        Some((Some(payload), p1)) => if valid_utf8(payload) {
            Some((Some(decode_utf8(payload)), p1))
        } else {
            None
        },
        Some((None, p1)) => Some((None, p1)),
        None => None,
    }
}

/// Parses a string that may not be null.
pub open spec fn spec_read_str_nn(b: Seq<u8>, p: int, sz: CqlBytesSize) -> Option<
    (Seq<char>, int),
> {
    match spec_read_str(b, p, sz) {
        Some((Some(s), p1)) => Some((s, p1)),
        _ => None,
    }
}

/// The address held by a 4- or 16-byte payload.
pub open spec fn spec_ip_of_bytes(pl: Seq<u8>) -> Option<CqlIpAddr> {
    if pl.len() == 4 {
        Some(CqlIpAddr::V4(pl[0], pl[1], pl[2], pl[3]))
    } else if pl.len() == 16 {
        Some(
            CqlIpAddr::V6(
                u16_at(pl, 0),
                u16_at(pl, 2),
                u16_at(pl, 4),
                u16_at(pl, 6),
                u16_at(pl, 8),
                u16_at(pl, 10),
                u16_at(pl, 12),
                u16_at(pl, 14),
            ),
        )
    } else {
        None
    }
}

/// Parses an address followed by a 4-byte signed port.
pub open spec fn spec_read_inet_with_port(b: Seq<u8>, p: int, sz: CqlBytesSize) -> Option<
    (CqlSocketAddr, int),
> {
    match spec_read_bytes_opt(b, p, sz) {
        Some((Some(pl), p1)) => match spec_ip_of_bytes(pl) {
            Some(ip) => if can_read(b, p1, 4) {
                let port = i32_of_u32(u32_at(b, p1));
                if 0 <= port && port <= 0xFFFF {
                    Some((CqlSocketAddr { ip, port: port as u16 }, p1 + 4))
                } else {
                    None
                }
            } else {
                None
            },
            None => None,
        },
        _ => None,
    }
}

/// Parses one single (non-collection) typed value of the given column type,
/// with its length field in the given width. Fixed-width types insist on
/// their exact width; a length of -1 is null.
pub open spec fn spec_read_value_single(
    t: CqlValueType,
    sz: CqlBytesSize,
    b: Seq<u8>,
    p: int,
) -> Option<(ValueV, int)> {
    match t {
        CqlValueType::ColumnASCII => match spec_read_str(b, p, sz) {
            Some((s, p1)) => Some((ValueV::VAscii(s), p1)),
            None => None,
        },
        CqlValueType::ColumnVarChar => match spec_read_str(b, p, sz) {
            Some((s, p1)) => Some((ValueV::VVarchar(s), p1)),
            None => None,
        },
        CqlValueType::ColumnText => match spec_read_str(b, p, sz) {
            Some((s, p1)) => Some((ValueV::VText(s), p1)),
            None => None,
        },
        CqlValueType::ColumnInt => match spec_read_len(b, p, sz) {
            Some((n, p1)) => if n == -1 {
                Some((ValueV::VInt(None), p1))
            } else if n == 4 && can_read(b, p1, 4) {
                Some((ValueV::VInt(Some(i32_of_u32(u32_at(b, p1)))), p1 + 4))
            } else {
                None
            },
            None => None,
        },
        CqlValueType::ColumnBigInt => match spec_read_len(b, p, sz) {
            Some((n, p1)) => if n == -1 {
                Some((ValueV::VBigInt(None), p1))
            } else if n == 8 && can_read(b, p1, 8) {
                Some((ValueV::VBigInt(Some(i64_of_u64(u64_at(b, p1)))), p1 + 8))
            } else {
                None
            },
            None => None,
        },
        CqlValueType::ColumnCounter => match spec_read_len(b, p, sz) {
            Some((n, p1)) => if n == -1 {
                Some((ValueV::VCounter(None), p1))
            } else if n == 8 && can_read(b, p1, 8) {
                Some((ValueV::VCounter(Some(i64_of_u64(u64_at(b, p1)))), p1 + 8))
            } else {
                None
            },
            None => None,
        },
        CqlValueType::ColumnTimestamp => match spec_read_len(b, p, sz) {
            Some((n, p1)) => if n == -1 {
                Some((ValueV::VTimestamp(None), p1))
            } else if n == 8 && can_read(b, p1, 8) {
                Some((ValueV::VTimestamp(Some(u64_at(b, p1))), p1 + 8))
            } else {
                None
            },
            None => None,
        },
        CqlValueType::ColumnFloat => match spec_read_len(b, p, sz) {
            Some((n, p1)) => if n == -1 {
                Some((ValueV::VFloat(None), p1))
            } else if n == 4 && can_read(b, p1, 4) {
                Some((ValueV::VFloat(Some(u32_at(b, p1))), p1 + 4))
            } else {
                None
            },
            None => None,
        },
        CqlValueType::ColumnDouble => match spec_read_len(b, p, sz) {
            Some((n, p1)) => if n == -1 {
                Some((ValueV::VDouble(None), p1))
            } else if n == 8 && can_read(b, p1, 8) {
                Some((ValueV::VDouble(Some(u64_at(b, p1))), p1 + 8))
            } else {
                None
            },
            None => None,
        },
        CqlValueType::ColumnBoolean => match spec_read_len(b, p, sz) {
            Some((n, p1)) => if n == -1 {
                Some((ValueV::VBoolean(None), p1))
            } else if n == 1 && can_read(b, p1, 1) {
                Some((ValueV::VBoolean(Some(b[p1] != 0)), p1 + 1))
            } else {
                None
            },
            None => None,
        },
        CqlValueType::ColumnBlob => match spec_read_bytes_opt(b, p, sz) {
            Some((pl, p1)) => Some((ValueV::VBlob(pl), p1)),
            None => None,
        },
        CqlValueType::ColumnUuid => match spec_read_bytes_opt(b, p, sz) {
            Some((Some(pl), p1)) => if pl.len() == 16 {
                Some((ValueV::VUuid(Some(pl)), p1))
            } else {
                None
            },
            Some((None, p1)) => Some((ValueV::VUuid(None), p1)),
            None => None,
        },
        CqlValueType::ColumnTimeUuid => match spec_read_bytes_opt(b, p, sz) {
            Some((Some(pl), p1)) => if pl.len() == 16 {
                Some((ValueV::VTimeUuid(Some(pl)), p1))
            } else {
                None
            },
            Some((None, p1)) => Some((ValueV::VTimeUuid(None), p1)),
            None => None,
        },
        CqlValueType::ColumnVarint => match spec_read_bytes_opt(b, p, sz) {
            Some((Some(pl), p1)) => if pl.len() > 0 {
                Some((ValueV::VVarint(Some(pl)), p1))
            } else {
                None
            },
            Some((None, p1)) => Some((ValueV::VVarint(None), p1)),
            None => None,
        },
        CqlValueType::ColumnInet => match spec_read_bytes_opt(b, p, sz) {
            Some((Some(pl), p1)) => match spec_ip_of_bytes(pl) {
                Some(ip) => Some((ValueV::VInet(Some(ip)), p1)),
                None => None,
            },
            Some((None, p1)) => Some((ValueV::VInet(None), p1)),
            None => None,
        },
        CqlValueType::ColumnCustom => match spec_read_bytes_raw(b, p, sz) {
            Some((_, p1)) => Some((ValueV::VUnknown, p1)),
            None => None,
        },
        CqlValueType::ColumnDecimal => match spec_read_bytes_raw(b, p, sz) {
            Some((_, p1)) => Some((ValueV::VUnknown, p1)),
            None => None,
        },
        _ => None,
    }
}

/// Parses `n` single values of one element type.
pub open spec fn spec_read_values(
    t: CqlValueType,
    sz: CqlBytesSize,
    b: Seq<u8>,
    p: int,
    n: nat,
) -> Option<(Seq<ValueV>, int)>
    decreases n,
{
    if n == 0 {
        Some((Seq::empty(), p))
    } else {
        match spec_read_value_single(t, sz, b, p) {
            Some((v, p1)) => match spec_read_values(t, sz, b, p1, (n - 1) as nat) {
                Some((vs, p2)) => Some((seq![v] + vs, p2)),
                None => None,
            },
            None => None,
        }
    }
}

/// Parses `n` key/value entries of a map.
pub open spec fn spec_read_pairs(
    kt: CqlValueType,
    vt: CqlValueType,
    sz: CqlBytesSize,
    b: Seq<u8>,
    p: int,
    n: nat,
) -> Option<(Seq<(ValueV, ValueV)>, int)>
    decreases n,
{
    if n == 0 {
        Some((Seq::empty(), p))
    } else {
        match spec_read_value_single(kt, sz, b, p) {
            Some((k, p1)) => match spec_read_value_single(vt, sz, b, p1) {
                Some((v, p2)) => match spec_read_pairs(kt, vt, sz, b, p2, (n - 1) as nat) {
                    Some((es, p3)) => Some((seq![(k, v)] + es, p3)),
                    None => None,
                },
                None => None,
            },
            None => None,
        }
    }
}

/// Parses one value of a column: collections carry a 4-byte total length,
/// then an element count and elements in the collection width; single
/// values carry a 4-byte length.
pub open spec fn spec_read_value(c: ColMetaV, sz: CqlBytesSize, b: Seq<u8>, p: int) -> Option<
    (ValueV, int),
> {
    if c.col_type == CqlValueType::ColumnList || c.col_type == CqlValueType::ColumnSet {
        match spec_read_len(b, p, CqlBytesSize::Cqli32) {
            Some((total, p1)) => if total == -1 {
                if c.col_type == CqlValueType::ColumnList {
                    Some((ValueV::VList(None), p1))
                } else {
                    Some((ValueV::VSet(None), p1))
                }
            } else if total < 0 {
                None
            } else {
                match spec_read_len(b, p1, sz) {
                    Some((cnt, p2)) => if cnt < 0 {
                        None
                    } else {
                        match spec_read_values(c.col_type_aux1, sz, b, p2, cnt as nat) {
                            Some((vs, p3)) => if c.col_type == CqlValueType::ColumnList {
                                Some((ValueV::VList(Some(vs)), p3))
                            } else {
                                Some((ValueV::VSet(Some(vs)), p3))
                            },
                            None => None,
                        }
                    },
                    None => None,
                }
            },
            None => None,
        }
    } else if c.col_type == CqlValueType::ColumnMap {
        match spec_read_len(b, p, CqlBytesSize::Cqli32) {
            Some((total, p1)) => if total == -1 {
                Some((ValueV::VMap(None), p1))
            } else if total < 0 {
                None
            } else {
                match spec_read_len(b, p1, sz) {
                    Some((cnt, p2)) => if cnt < 0 {
                        None
                    } else {
                        match spec_read_pairs(
                            c.col_type_aux1,
                            c.col_type_aux2,
                            sz,
                            b,
                            p2,
                            cnt as nat,
                        ) {
                            Some((es, p3)) => Some((ValueV::VMap(Some(es)), p3)),
                            None => None,
                        }
                    },
                    None => None,
                }
            },
            None => None,
        }
    } else {
        spec_read_value_single(c.col_type, CqlBytesSize::Cqli32, b, p)
    }
}

/// Parses the metadata of one column. With the global-table-spec flag set
/// the keyspace and table come from the metadata header.
pub open spec fn spec_read_col(
    b: Seq<u8>,
    p: int,
    global: bool,
    ks: Seq<char>,
    tb: Seq<char>,
) -> Option<(ColMetaV, int)> {
    let named = if global {
        Some(((ks, tb), p))
    } else {
        match spec_read_str_nn(b, p, CqlBytesSize::Cqli16) {
            Some((k, p1)) => match spec_read_str_nn(b, p1, CqlBytesSize::Cqli16) {
                Some((t, p2)) => Some(((k, t), p2)),
                None => None,
            },
            None => None,
        }
    };
    match named {
        Some(((k, t), p2)) => match spec_read_str_nn(b, p2, CqlBytesSize::Cqli16) {
            Some((name, p3)) => if can_read(b, p3, 2) {
                let code = u16_at(b, p3);
                let custom = if code == 0x0000 {
                    match spec_read_str_nn(b, p3 + 2, CqlBytesSize::Cqli16) {
                        Some((c, p4)) => Some((Some(c), p4)),
                        None => None,
                    }
                } else {
                    Some((None, p3 + 2))
                };
                match custom {
                    Some((cu, p4)) => {
                        let aux1 = if code >= 0x0020 {
                            if can_read(b, p4, 2) {
                                Some((spec_cql_column_type(u16_at(b, p4)), p4 + 2))
                            } else {
                                None
                            }
                        } else {
                            Some((CqlValueType::ColumnUnknown, p4))
                        };
                        match aux1 {
                            Some((a1, p5)) => {
                                let aux2 = if code == 0x0021 {
                                    if can_read(b, p5, 2) {
                                        Some((spec_cql_column_type(u16_at(b, p5)), p5 + 2))
                                    } else {
                                        None
                                    }
                                } else {
                                    Some((CqlValueType::ColumnUnknown, p5))
                                };
                                match aux2 {
                                    Some((a2, p6)) => Some(
                                        (
                                            ColMetaV {
                                                keyspace: k,
                                                table: t,
                                                col_name: name,
                                                custom_type: cu,
                                                col_type: spec_cql_column_type(code),
                                                col_type_aux1: a1,
                                                col_type_aux2: a2,
                                            },
                                            p6,
                                        ),
                                    ),
                                    None => None,
                                }
                            },
                            None => None,
                        }
                    },
                    None => None,
                }
            } else {
                None
            },
            None => None,
        },
        None => None,
    }
}

/// Parses `n` column metadata entries.
pub open spec fn spec_read_cols(
    b: Seq<u8>,
    p: int,
    global: bool,
    ks: Seq<char>,
    tb: Seq<char>,
    n: nat,
) -> Option<(Seq<ColMetaV>, int)>
    decreases n,
{
    if n == 0 {
        Some((Seq::empty(), p))
    } else {
        match spec_read_col(b, p, global, ks, tb) {
            Some((c, p1)) => match spec_read_cols(b, p1, global, ks, tb, (n - 1) as nat) {
                Some((cs, p2)) => Some((seq![c] + cs, p2)),
                None => None,
            },
            None => None,
        }
    }
}

/// Parses a rows result's metadata.
pub open spec fn spec_read_metadata(b: Seq<u8>, p: int) -> Option<(MetaV, int)> {
    if can_read(b, p, 8) {
        let flags = u32_at(b, p);
        let column_count = u32_at(b, p + 4);
        let global = flags & 0x0001 != 0;
        let named = if global {
            match spec_read_str_nn(b, p + 8, CqlBytesSize::Cqli16) {
                Some((k, p1)) => match spec_read_str_nn(b, p1, CqlBytesSize::Cqli16) {
                    Some((t, p2)) => Some(((k, t), p2)),
                    None => None,
                },
                None => None,
            }
        } else {
            Some(((Seq::empty(), Seq::empty()), p + 8))
        };
        match named {
            Some(((k, t), p2)) => match spec_read_cols(b, p2, global, k, t, column_count as nat) {
                Some((cs, p3)) => Some(
                    (
                        MetaV {
                            flags,
                            column_count,
                            keyspace: k,
                            table: t,
                            row_metadata: cs,
                        },
                        p3,
                    ),
                ),
                None => None,
            },
            None => None,
        }
    } else {
        None
    }
}

/// Parses one row: one value per column, in metadata order.
pub open spec fn spec_read_row(cols: Seq<ColMetaV>, sz: CqlBytesSize, b: Seq<u8>, p: int) -> Option<
    (Seq<ValueV>, int),
>
    decreases cols.len(),
{
    if cols.len() == 0 {
        Some((Seq::empty(), p))
    } else {
        match spec_read_value(cols[0], sz, b, p) {
            Some((v, p1)) => match spec_read_row(cols.drop_first(), sz, b, p1) {
                Some((vs, p2)) => Some((seq![v] + vs, p2)),
                None => None,
            },
            None => None,
        }
    }
}

/// Parses `n` rows.
pub open spec fn spec_read_rows_n(
    cols: Seq<ColMetaV>,
    sz: CqlBytesSize,
    b: Seq<u8>,
    p: int,
    n: nat,
) -> Option<(Seq<Seq<ValueV>>, int)>
    decreases n,
{
    if n == 0 {
        Some((Seq::empty(), p))
    } else {
        match spec_read_row(cols, sz, b, p) {
            Some((r, p1)) => match spec_read_rows_n(cols, sz, b, p1, (n - 1) as nat) {
                Some((rs, p2)) => Some((seq![r] + rs, p2)),
                None => None,
            },
            None => None,
        }
    }
}

/// Parses a rows result: metadata, a 4-byte row count, then the grid.
pub open spec fn spec_read_rows(b: Seq<u8>, p: int, sz: CqlBytesSize) -> Option<(RowsV, int)> {
    match spec_read_metadata(b, p) {
        Some((meta, p1)) => if can_read(b, p1, 4) {
            let n = u32_at(b, p1);
            match spec_read_rows_n(meta.row_metadata, sz, b, p1 + 4, n as nat) {
                Some((rows, p2)) => Some((RowsV { metadata: meta, rows }, p2)),
                None => None,
            }
        } else {
            None
        },
        None => None,
    }
}

/// The topology change sub-type named by a string.
pub open spec fn spec_topology_type(s: Seq<char>) -> TopologyChangeType {
    if s == "NEW_NODE"@ {
        TopologyChangeType::NewNode
    } else if s == "REMOVED_NODE"@ {
        TopologyChangeType::RemovedNode
    } else if s == "MOVED_NODE"@ {
        TopologyChangeType::MovedNode
    } else {
        TopologyChangeType::Unknown
    }
}

/// The status change sub-type named by a string.
pub open spec fn spec_status_type(s: Seq<char>) -> StatusChangeType {
    if s == "UP"@ {
        StatusChangeType::Up
    } else if s == "DOWN"@ {
        StatusChangeType::Down
    } else {
        StatusChangeType::UnknownStatus
    }
}

/// The schema change sub-type named by a string.
pub open spec fn spec_schema_type(s: Seq<char>) -> SchemaChangeType {
    if s == "CREATED"@ {
        SchemaChangeType::Created
    } else if s == "UPDATED"@ {
        SchemaChangeType::Updated
    } else if s == "DROPPED"@ {
        SchemaChangeType::Dropped
    } else {
        SchemaChangeType::UnknownChange
    }
}

/// Parses an event body: the event kind string, its change sub-type, and
/// an address or schema change identifiers.
pub open spec fn spec_read_event(b: Seq<u8>, p: int) -> Option<(EventV, int)> {
    match spec_read_str_nn(b, p, CqlBytesSize::Cqli16) {
        Some((kind, p1)) => if kind == "TOPOLOGY_CHANGE"@ {
            match spec_read_str_nn(b, p1, CqlBytesSize::Cqli16) {
                Some((ct, p2)) => match spec_read_inet_with_port(b, p2, CqlBytesSize::Cqli8) {
                    Some((addr, p3)) => Some((EventV::TopologyV(spec_topology_type(ct), addr), p3)),
                    None => None,
                },
                None => None,
            }
        } else if kind == "STATUS_CHANGE"@ {
            match spec_read_str_nn(b, p1, CqlBytesSize::Cqli16) {
                Some((ct, p2)) => match spec_read_inet_with_port(b, p2, CqlBytesSize::Cqli8) {
                    Some((addr, p3)) => Some((EventV::StatusV(spec_status_type(ct), addr), p3)),
                    None => None,
                },
                None => None,
            }
        } else if kind == "SCHEMA_CHANGE"@ {
            match spec_read_str_nn(b, p1, CqlBytesSize::Cqli16) {
                Some((ct, p2)) => match spec_read_str_nn(b, p2, CqlBytesSize::Cqli16) {
                    Some((target, p3)) => if target == "KEYSPACE"@ {
                        match spec_read_str_nn(b, p3, CqlBytesSize::Cqli16) {
                            Some((k, p4)) => Some(
                                (
                                    EventV::SchemaV(
                                        spec_schema_type(ct),
                                        SchemaOptV::KeyspaceV(k),
                                    ),
                                    p4,
                                ),
                            ),
                            None => None,
                        }
                    } else if target == "TABLE"@ {
                        match spec_read_str_nn(b, p3, CqlBytesSize::Cqli16) {
                            Some((k, p4)) => match spec_read_str_nn(b, p4, CqlBytesSize::Cqli16) {
                                Some((t, p5)) => Some(
                                    (
                                        EventV::SchemaV(
                                            spec_schema_type(ct),
                                            SchemaOptV::TableV(k, t),
                                        ),
                                        p5,
                                    ),
                                ),
                                None => None,
                            },
                            None => None,
                        }
                    } else if target == "TYPE"@ {
                        match spec_read_str_nn(b, p3, CqlBytesSize::Cqli16) {
                            Some((k, p4)) => match spec_read_str_nn(b, p4, CqlBytesSize::Cqli16) {
                                Some((t, p5)) => Some(
                                    (
                                        EventV::SchemaV(
                                            spec_schema_type(ct),
                                            SchemaOptV::TypeV(k, t),
                                        ),
                                        p5,
                                    ),
                                ),
                                None => None,
                            },
                            None => None,
                        }
                    } else {
                        None
                    },
                    None => None,
                },
                None => None,
            }
        } else {
            None
        },
        None => None,
    }
}

/// Parses a frame header: the stream id is one byte below revision 3, two
/// bytes from revision 3 on, both signed.
pub open spec fn spec_read_frame_header(b: Seq<u8>, p: int, version: u8) -> Option<
    (CqlFrameHeader, int),
> {
    if version >= 3 {
        if can_read(b, p, 5) {
            Some(
                (
                    CqlFrameHeader {
                        version: b[p],
                        flags: b[p + 1],
                        stream: i16_of_u16(u16_at(b, p + 2)),
                        opcode: b[p + 4],
                    },
                    p + 5,
                ),
            )
        } else {
            None
        }
    } else {
        if can_read(b, p, 4) {
            Some(
                (
                    CqlFrameHeader {
                        version: b[p],
                        flags: b[p + 1],
                        stream: i16_of_u8(b[p + 2]),
                        opcode: b[p + 3],
                    },
                    p + 4,
                ),
            )
        } else {
            None
        }
    }
}

/// Parses a response body of the given opcode. Trailing bytes of the body
/// are ignored, as the frame's length field bounds the body already.
pub open spec fn spec_read_response_body(
    op: OpcodeResponse,
    version: u8,
    body: Seq<u8>,
) -> Option<ResponseBodyV> {
    match op {
        OpcodeResponse::OpcodeReady => Some(ResponseBodyV::ReadyV),
        OpcodeResponse::OpcodeAuthenticate => match spec_read_str_nn(
            body,
            0,
            CqlBytesSize::Cqli16,
        ) {
            Some((s, _)) => Some(ResponseBodyV::AuthV(s)),
            None => None,
        },
        OpcodeResponse::OpcodeError => if can_read(body, 0, 4) {
            match spec_read_str_nn(body, 4, CqlBytesSize::Cqli16) {
                Some((m, _)) => Some(ResponseBodyV::ErrorV(u32_at(body, 0), m)),
                None => None,
            }
        } else {
            None
        },
        OpcodeResponse::OpcodeResult => if can_read(body, 0, 4) {
            match spec_kind_result_from(u32_at(body, 0)) {
                Some(KindResult::KindVoid) => Some(ResponseBodyV::VoidV),
                Some(KindResult::KindRows) => {
                    let sz = if version >= 3 {
                        CqlBytesSize::Cqli32
                    } else {
                        CqlBytesSize::Cqli16
                    };
                    match spec_read_rows(body, 4, sz) {
                        Some((r, _)) => Some(ResponseBodyV::RowsResultV(r)),
                        None => None,
                    }
                },
                Some(KindResult::KindSetKeyspace) => match spec_read_str_nn(
                    body,
                    4,
                    CqlBytesSize::Cqli16,
                ) {
                    Some((s, _)) => Some(ResponseBodyV::KeyspaceV(s)),
                    None => None,
                },
                Some(KindResult::KindSchemaChange) => match spec_read_str_nn(
                    body,
                    4,
                    CqlBytesSize::Cqli16,
                ) {
                    Some((c, p1)) => match spec_read_str_nn(body, p1, CqlBytesSize::Cqli16) {
                        Some((k, p2)) => match spec_read_str_nn(body, p2, CqlBytesSize::Cqli16) {
                            Some((t, _)) => Some(ResponseBodyV::SchemaChangeV(c, k, t)),
                            None => None,
                        },
                        None => None,
                    },
                    None => None,
                },
                Some(KindResult::KindPrepared) => match spec_read_bytes_opt(
                    body,
                    4,
                    CqlBytesSize::Cqli16,
                ) {
                    Some((Some(id), p1)) => match spec_read_metadata(body, p1) {
                        Some((m, p2)) => if version >= 2 {
                            match spec_read_metadata(body, p2) {
                                Some((m2, _)) => Some(
                                    ResponseBodyV::PreparedResultV(
                                        PreparedV { id, meta: m, meta_result: Some(m2) },
                                    ),
                                ),
                                None => None,
                            }
                        } else {
                            Some(
                                ResponseBodyV::PreparedResultV(
                                    PreparedV { id, meta: m, meta_result: None },
                                ),
                            )
                        },
                        None => None,
                    },
                    _ => None,
                },
                None => None,
            }
        } else {
            None
        },
        OpcodeResponse::OpcodeAuthChallenge => match spec_read_bytes_opt(
            body,
            0,
            CqlBytesSize::Cqli16,
        ) {
            Some((Some(pl), _)) => Some(ResponseBodyV::AuthChallengeV(pl)),
            _ => None,
        },
        OpcodeResponse::OpcodeAuthSuccess => match spec_read_bytes_opt(
            body,
            0,
            CqlBytesSize::Cqli16,
        ) {
            Some((Some(pl), _)) => Some(ResponseBodyV::AuthSuccessV(pl)),
            _ => None,
        },
        OpcodeResponse::OpcodeEvent => match spec_read_event(body, 0) {
            Some((e, _)) => Some(ResponseBodyV::EventRespV(e)),
            None => None,
        },
        OpcodeResponse::OpcodeSupported => Some(ResponseBodyV::UnknownRespV),
        OpcodeResponse::OpcodeUnknown => None,
    }
}

/// The extent of one frame: the position just past its body, when the
/// header, the length field and the full body are all present. A decode
/// that consumes a whole frame stops exactly here, whether or not the
/// body parses.
pub open spec fn spec_frame_extent(b: Seq<u8>, p0: int, version: u8) -> Option<int> {
    match spec_read_frame_header(b, p0, version) {
        Some((_, p)) => if can_read(b, p, 4) {
            let blen = i32_of_u32(u32_at(b, p));
            if blen < 0 {
                Some(p + 4)
            } else if can_read(b, p + 4, blen as int) {
                Some(p + 4 + blen)
            } else {
                None
            }
        } else {
            None
        },
        None => None,
    }
}

/// Parses one whole response frame: the header, the 4-byte body length,
/// then the body taken from exactly that many bytes. A negative body
/// length stands for an empty body.
pub open spec fn spec_read_response(b: Seq<u8>, p0: int, version: u8) -> Option<(ResponseV, int)> {
    match spec_read_frame_header(b, p0, version) {
        Some((h, p)) => if can_read(b, p, 4) {
            let blen = i32_of_u32(u32_at(b, p));
            let body_ok = if blen < 0 {
                Some((Seq::<u8>::empty(), p + 4))
            } else if can_read(b, p + 4, blen as int) {
                Some((b.subrange(p + 4, p + 4 + blen), p + 4 + blen))
            } else {
                None
            };
            match body_ok {
                Some((body, pend)) => match spec_read_response_body(
                    spec_opcode_response(h.opcode),
                    version,
                    body,
                ) {
                    Some(bd) => Some(
                        (
                            ResponseV {
                                version: h.version,
                                flags: h.flags,
                                stream: h.stream,
                                opcode: spec_opcode_response(h.opcode),
                                body: bd,
                            },
                            pend,
                        ),
                    ),
                    None => None,
                },
                None => None,
            }
        } else {
            None
        },
        None => None,
    }
}

/// Parses typed bound values, one per declared parameter type.
pub open spec fn spec_read_typed_values(
    b: Seq<u8>,
    p: int,
    types: Seq<CqlValueType>,
    sz: CqlBytesSize,
) -> Option<(Seq<ValueV>, int)>
    decreases types.len(),
{
    if types.len() == 0 {
        Some((Seq::empty(), p))
    } else {
        match spec_read_value_single(types[0], sz, b, p) {
            Some((v, p1)) => match spec_read_typed_values(b, p1, types.drop_first(), sz) {
                Some((vs, p2)) => Some((seq![v] + vs, p2)),
                None => None,
            },
            None => None,
        }
    }
}

/// Parses the bound values of a statement: a 2-byte count that must name
/// one value per declared parameter type, then the values.
pub open spec fn spec_read_params(
    b: Seq<u8>,
    p: int,
    types: Seq<CqlValueType>,
    sz: CqlBytesSize,
) -> Option<(Seq<ValueV>, int)> {
    if can_read(b, p, 2) {
        if u16_at(b, p) == types.len() {
            spec_read_typed_values(b, p + 2, types, sz)
        } else {
            None
        }
    } else {
        None
    }
}

/// Parses `n` key/value short string pairs of a string map.
pub open spec fn spec_read_string_map(b: Seq<u8>, p: int, n: nat) -> Option<
    (Seq<(Seq<char>, Seq<char>)>, int),
>
    decreases n,
{
    if n == 0 {
        Some((Seq::empty(), p))
    } else {
        match spec_read_str_nn(b, p, CqlBytesSize::Cqli16) {
            Some((k, p1)) => match spec_read_str_nn(b, p1, CqlBytesSize::Cqli16) {
                Some((v, p2)) => match spec_read_string_map(b, p2, (n - 1) as nat) {
                    Some((rest, p3)) => Some((seq![(k, v)] + rest, p3)),
                    None => None,
                },
                None => None,
            },
            None => None,
        }
    }
}

/// Parses `n` short strings of a string list.
pub open spec fn spec_read_str_list(b: Seq<u8>, p: int, n: nat) -> Option<(Seq<Seq<char>>, int)>
    decreases n,
{
    if n == 0 {
        Some((Seq::empty(), p))
    } else {
        match spec_read_str_nn(b, p, CqlBytesSize::Cqli16) {
            Some((s, p1)) => match spec_read_str_list(b, p1, (n - 1) as nat) {
                Some((rest, p2)) => Some((seq![s] + rest, p2)),
                None => None,
            },
            None => None,
        }
    }
}

/// Parses one batch statement: a kind byte, a query string or prepared
/// id, then its bound values.
pub open spec fn spec_read_query(
    b: Seq<u8>,
    p: int,
    types: Seq<CqlValueType>,
    sz: CqlBytesSize,
) -> Option<(QueryV, int)> {
    if can_read(b, p, 1) {
        if b[p] == 0 {
            match spec_read_str_nn(b, p + 1, CqlBytesSize::Cqli32) {
                Some((s, p1)) => match spec_read_params(b, p1, types, sz) {
                    Some((vs, p2)) => Some((QueryV::QueryStrV(s, vs), p2)),
                    None => None,
                },
                None => None,
            }
        } else if b[p] == 1 {
            match spec_read_bytes_opt(b, p + 1, CqlBytesSize::Cqli16) {
                Some((Some(id), p1)) => match spec_read_params(b, p1, types, sz) {
                    Some((vs, p2)) => Some((QueryV::QueryPreparedV(id, vs), p2)),
                    None => None,
                },
                _ => None,
            }
        } else {
            None
        }
    } else {
        None
    }
}

/// Parses batch statements, one per entry of the type context.
pub open spec fn spec_read_queries(
    b: Seq<u8>,
    p: int,
    ctx: Seq<Seq<CqlValueType>>,
    sz: CqlBytesSize,
) -> Option<(Seq<QueryV>, int)>
    decreases ctx.len(),
{
    if ctx.len() == 0 {
        Some((Seq::empty(), p))
    } else {
        match spec_read_query(b, p, ctx[0], sz) {
            Some((q, p1)) => match spec_read_queries(b, p1, ctx.drop_first(), sz) {
                Some((qs, p2)) => Some((seq![q] + qs, p2)),
                None => None,
            },
            None => None,
        }
    }
}

/// The collection width used for bound values of the given protocol
/// revision.
pub open spec fn spec_param_size(version: u8) -> CqlBytesSize {
    if version >= 3 {
        CqlBytesSize::Cqli32
    } else {
        CqlBytesSize::Cqli16
    }
}

/// Parses a request body of the given opcode. The type context supplies
/// the declared parameter types of bound values, which the wire does not
/// carry: one entry for an `Execute`, one entry per statement for a
/// `Batch`.
pub open spec fn spec_read_request_body(
    op: OpcodeRequest,
    version: u8,
    body: Seq<u8>,
    ctx: Seq<Seq<CqlValueType>>,
) -> Option<RequestBodyV> {
    let sz = spec_param_size(version);
    match op {
        OpcodeRequest::OpcodeStartup => if can_read(body, 0, 2) {
            match spec_read_string_map(body, 2, u16_at(body, 0) as nat) {
                Some((pairs, _)) => Some(RequestBodyV::StartupV(pairs)),
                None => None,
            }
        } else {
            None
        },
        OpcodeRequest::OpcodeCred => if can_read(body, 0, 2) {
            match spec_read_str_list(body, 2, u16_at(body, 0) as nat) {
                Some((ss, _)) => Some(RequestBodyV::CredV(ss)),
                None => None,
            }
        } else {
            None
        },
        OpcodeRequest::OpcodeOptions => Some(RequestBodyV::OptionsV),
        OpcodeRequest::OpcodeQuery => match spec_read_str_nn(body, 0, CqlBytesSize::Cqli32) {
            Some((s, p1)) => if can_read(body, p1, 3) {
                match spec_consistency_from(u16_at(body, p1)) {
                    Some(c) => Some(RequestBodyV::QueryReqV(s, c, body[p1 + 2])),
                    None => None,
                }
            } else {
                None
            },
            None => None,
        },
        OpcodeRequest::OpcodePrepare => match spec_read_str_nn(body, 0, CqlBytesSize::Cqli32) {
            Some((s, _)) => Some(RequestBodyV::PrepareV(s)),
            None => None,
        },
        OpcodeRequest::OpcodeExecute => match spec_read_bytes_opt(body, 0, CqlBytesSize::Cqli16) {
            Some((Some(id), p1)) => {
                let types = if ctx.len() > 0 {
                    ctx[0]
                } else {
                    Seq::empty()
                };
                match spec_read_params(body, p1, types, sz) {
                    Some((vs, p2)) => if can_read(body, p2, 3) {
                        match spec_consistency_from(u16_at(body, p2)) {
                            Some(c) => Some(RequestBodyV::ExecV(id, vs, c, body[p2 + 2])),
                            None => None,
                        }
                    } else {
                        None
                    },
                    None => None,
                }
            },
            _ => None,
        },
        OpcodeRequest::OpcodeBatch => if can_read(body, 0, 3) {
            match spec_batch_type_from(body[0]) {
                Some(t) => if u16_at(body, 1) == ctx.len() {
                    match spec_read_queries(body, 3, ctx, sz) {
                        Some((qs, p1)) => if can_read(body, p1, 3) {
                            match spec_consistency_from(u16_at(body, p1)) {
                                Some(c) => Some(RequestBodyV::BatchV(qs, t, c, body[p1 + 2])),
                                None => None,
                            }
                        } else {
                            None
                        },
                        None => None,
                    }
                } else {
                    None
                },
                None => None,
            }
        } else {
            None
        },
        OpcodeRequest::OpcodeRegister => if can_read(body, 0, 2) {
            match spec_read_str_list(body, 2, u16_at(body, 0) as nat) {
                Some((ss, _)) => Some(RequestBodyV::RegisterV(ss)),
                None => None,
            }
        } else {
            None
        },
    }
}

/// Parses one whole request frame, with a type context for bound values.
pub open spec fn spec_read_request(
    b: Seq<u8>,
    p0: int,
    version: u8,
    ctx: Seq<Seq<CqlValueType>>,
) -> Option<(RequestV, int)> {
    match spec_read_frame_header(b, p0, version) {
        Some((h, p)) => if can_read(b, p, 4) {
            let blen = i32_of_u32(u32_at(b, p));
            let body_ok = if blen < 0 {
                Some((Seq::<u8>::empty(), p + 4))
            } else if can_read(b, p + 4, blen as int) {
                Some((b.subrange(p + 4, p + 4 + blen), p + 4 + blen))
            } else {
                None
            };
            match body_ok {
                Some((body, pend)) => match spec_opcode_request_from(h.opcode) {
                    Some(op) => match spec_read_request_body(op, version, body, ctx) {
                        Some(bd) => Some(
                            (
                                RequestV {
                                    version: h.version,
                                    flags: h.flags,
                                    stream: h.stream,
                                    opcode: op,
                                    body: bd,
                                },
                                pend,
                            ),
                        ),
                        None => None,
                    },
                    None => None,
                },
                None => None,
            }
        } else {
            None
        },
        None => None,
    }
}

} // verus!
