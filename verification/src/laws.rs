//! The codec's round-trip laws: decoding an encoded value or request
//! yields the original, encoding is deterministic, and every encoded
//! frame's length field counts exactly the bytes that follow the header.

use vstd::prelude::*;
use vstd::utf8::{encode_utf8, encode_utf8_decode_utf8, encode_utf8_valid_utf8};

use crate::def::{CqlBytesSize, CqlIpAddr, CqlValueType, ValueV};
use crate::grammar::{
    spec_read_len, spec_read_str_nn, spec_read_bytes_opt, spec_read_typed_values,
    spec_read_value, spec_read_value_single, spec_read_values, spec_ip_of_bytes,
};
use crate::serialize::{
    enc_len, enc_long_str, enc_short_bytes, enc_short_str, len_fits, spec_encode_str_list,
    spec_encode_string_map, spec_encode_value, spec_encode_value_single, spec_encode_values,
    spec_value_payload, type_of_value, value_is_null, value_single_encodable,
};
use crate::wire::{
    be2, be4, can_read, i32_of_u32, lemma_be2_at, lemma_be4_at, lemma_be8_at,
    lemma_signed_carriers, u16_at, u16_of_i16, u32_at, u32_of_i32, u64_of_i64,
};

verus! {

/// The width in bytes of a length field.
pub open spec fn len_width(sz: CqlBytesSize) -> int {
    match sz {
        CqlBytesSize::Cqli8 => 1,
        CqlBytesSize::Cqli16 => 2,
        CqlBytesSize::Cqli32 => 4,
    }
}

/// An encoded length field reads back as the value it was built from.
pub proof fn lemma_enc_len_at(b: Seq<u8>, p: int, n: int, sz: CqlBytesSize)
    requires
        (sz == CqlBytesSize::Cqli8 ==> 0 <= n <= 0xFF),
        (sz == CqlBytesSize::Cqli16 ==> -0x8000 <= n <= 0x7FFF),
        (sz == CqlBytesSize::Cqli32 ==> -0x8000_0000 <= n <= 0x7FFF_FFFF),
        can_read(b, p, len_width(sz)),
        b.subrange(p, p + len_width(sz)) =~= enc_len(n, sz),
    ensures
        spec_read_len(b, p, sz) == Some((n as i32, p + len_width(sz))),
{
    match sz {
        CqlBytesSize::Cqli8 => {
            assert(b[p] == enc_len(n, sz)[0]);
        },
        CqlBytesSize::Cqli16 => {
            lemma_be2_at(b, p, u16_of_i16(n as i16));
            lemma_signed_carriers(0, 0, 0, n as i16, 0, 0);
        },
        CqlBytesSize::Cqli32 => {
            lemma_be4_at(b, p, u32_of_i32(n as i32));
            lemma_signed_carriers(0, 0, 0, 0, n as i32, 0);
        },
    }
}

/// An encoded single value decodes back to itself.
#[verifier::rlimit(100)]
#[verifier::spinoff_prover]
pub proof fn lemma_value_single_roundtrip(b: Seq<u8>, p: int, v: ValueV, sz: CqlBytesSize)
    requires
        sz == CqlBytesSize::Cqli16 || sz == CqlBytesSize::Cqli32,
        value_single_encodable(v, sz),
        can_read(b, p, spec_encode_value_single(v, sz).len() as int),
        b.subrange(p, p + spec_encode_value_single(v, sz).len()) =~= spec_encode_value_single(
            v,
            sz,
        ),
    ensures
        spec_read_value_single(type_of_value(v), sz, b, p) == Some(
            (v, p + spec_encode_value_single(v, sz).len()),
        ),
{
    let e = spec_encode_value_single(v, sz);
    let w = len_width(sz);
    if value_is_null(v) {
        assert(e == enc_len(-1, sz));
        assert(b.subrange(p, p + w) =~= enc_len(-1, sz));
        lemma_enc_len_at(b, p, -1, sz);
    } else {
        let pl = spec_value_payload(v);
        let n = pl.len() as int;
        assert(e == enc_len(n, sz) + pl);
        assert(enc_len(n, sz).len() == w);
        assert forall|i: int| 0 <= i < w implies b.subrange(p, p + w)[i] == enc_len(n, sz)[i] by {
            assert(b.subrange(p, p + w)[i] == b[p + i]);
            assert(b[p + i] == b.subrange(p, p + e.len())[i]);
            assert(e[i] == enc_len(n, sz)[i]);
        }
        assert(b.subrange(p, p + w) =~= enc_len(n, sz));
        lemma_enc_len_at(b, p, n, sz);
        let p1 = p + w;
        assert forall|i: int| 0 <= i < n implies b.subrange(p1, p1 + n)[i] == pl[i] by {
            assert(b.subrange(p1, p1 + n)[i] == b[p1 + i]);
            assert(b[p1 + i] == b.subrange(p, p + e.len())[w + i]);
            assert(e[w + i] == pl[i]);
        }
        assert(b.subrange(p1, p1 + n) =~= pl);
        match v {
            ValueV::VAscii(Some(s)) => {
                encode_utf8_valid_utf8(s);
                encode_utf8_decode_utf8(s);
            },
            ValueV::VVarchar(Some(s)) => {
                encode_utf8_valid_utf8(s);
                encode_utf8_decode_utf8(s);
            },
            ValueV::VText(Some(s)) => {
                encode_utf8_valid_utf8(s);
                encode_utf8_decode_utf8(s);
            },
            ValueV::VInt(Some(x)) => {
                lemma_be4_at(b, p1, u32_of_i32(x));
                lemma_signed_carriers(0, 0, 0, 0, x, 0);
            },
            ValueV::VBigInt(Some(x)) => {
                lemma_be8_at(b, p1, u64_of_i64(x));
                lemma_signed_carriers(0, 0, 0, 0, 0, x);
            },
            ValueV::VCounter(Some(x)) => {
                lemma_be8_at(b, p1, u64_of_i64(x));
                lemma_signed_carriers(0, 0, 0, 0, 0, x);
            },
            ValueV::VTimestamp(Some(x)) => {
                lemma_be8_at(b, p1, x);
            },
            ValueV::VFloat(Some(x)) => {
                lemma_be4_at(b, p1, x);
            },
            ValueV::VDouble(Some(x)) => {
                lemma_be8_at(b, p1, x);
            },
            ValueV::VBoolean(Some(x)) => {
                assert(b[p1] == pl[0]);
            },
            ValueV::VInet(Some(ip)) => {
                match ip {
                    CqlIpAddr::V4(x0, x1, x2, x3) => {
                        assert(spec_ip_of_bytes(pl) == Some(ip));
                    },
                    CqlIpAddr::V6(s0, s1, s2, s3, s4, s5, s6, s7) => {
                        assert(pl.subrange(0, 2) =~= be2(s0));
                        assert(pl.subrange(2, 4) =~= be2(s1));
                        assert(pl.subrange(4, 6) =~= be2(s2));
                        assert(pl.subrange(6, 8) =~= be2(s3));
                        assert(pl.subrange(8, 10) =~= be2(s4));
                        assert(pl.subrange(10, 12) =~= be2(s5));
                        assert(pl.subrange(12, 14) =~= be2(s6));
                        assert(pl.subrange(14, 16) =~= be2(s7));
                        lemma_be2_at(pl, 0, s0);
                        lemma_be2_at(pl, 2, s1);
                        lemma_be2_at(pl, 4, s2);
                        lemma_be2_at(pl, 6, s3);
                        lemma_be2_at(pl, 8, s4);
                        lemma_be2_at(pl, 10, s5);
                        lemma_be2_at(pl, 12, s6);
                        lemma_be2_at(pl, 14, s7);
                        assert(spec_ip_of_bytes(pl) == Some(ip));
                    },
                }
            },
            _ => {},
        }
    }
}

/// The declared types of a sequence of values.
pub open spec fn types_of_values(items: Seq<ValueV>) -> Seq<CqlValueType> {
    Seq::new(items.len(), |i: int| type_of_value(items[i]))
}

/// Encoded bound values decode back to themselves, against their declared
/// types.
#[verifier::rlimit(100)]
#[verifier::spinoff_prover]
pub proof fn lemma_typed_values_roundtrip(b: Seq<u8>, p: int, items: Seq<ValueV>, sz: CqlBytesSize)
    requires
        sz == CqlBytesSize::Cqli16 || sz == CqlBytesSize::Cqli32,
        forall|i: int| 0 <= i < items.len() ==> value_single_encodable(#[trigger] items[i], sz),
        can_read(b, p, spec_encode_values(items, sz).len() as int),
        b.subrange(p, p + spec_encode_values(items, sz).len()) =~= spec_encode_values(items, sz),
    ensures
        spec_read_typed_values(b, p, types_of_values(items), sz) == Some(
            (items, p + spec_encode_values(items, sz).len()),
        ),
    decreases items.len(),
{
    let ee = spec_encode_values(items, sz);
    if items.len() == 0 {
        assert(types_of_values(items) =~= Seq::<CqlValueType>::empty());
        assert(spec_read_typed_values(b, p, types_of_values(items), sz) == Some((items, p)) && ee
            =~= Seq::<u8>::empty()) by {
            assert(items =~= Seq::<ValueV>::empty());
        }
    } else {
        let e0 = spec_encode_value_single(items[0], sz);
        let rest = spec_encode_values(items.drop_first(), sz);
        assert(ee == e0 + rest);
        assert forall|i: int| 0 <= i < e0.len() implies b.subrange(p, p + e0.len())[i] == e0[i] by {
            assert(b.subrange(p, p + e0.len())[i] == b[p + i]);
            assert(b[p + i] == b.subrange(p, p + ee.len())[i]);
            assert(ee[i] == (e0 + rest)[i]);
        }
        assert(b.subrange(p, p + e0.len()) =~= e0);
        assert forall|i: int| 0 <= i < rest.len() implies b.subrange(
            p + e0.len(),
            p + e0.len() + rest.len(),
        )[i] == rest[i] by {
            assert(b.subrange(p + e0.len(), p + e0.len() + rest.len())[i] == b[p + e0.len() + i]);
            assert(b[p + e0.len() + i] == b.subrange(p, p + ee.len())[e0.len() + i]);
            assert(ee[e0.len() + i] == (e0 + rest)[e0.len() + i]);
        }
        assert(b.subrange(p + e0.len(), p + e0.len() + rest.len()) =~= rest);
        lemma_value_single_roundtrip(b, p, items[0], sz);
        lemma_typed_values_roundtrip(b, p + e0.len(), items.drop_first(), sz);
        assert(types_of_values(items)[0] == type_of_value(items[0]));
        assert(types_of_values(items).drop_first() =~= types_of_values(items.drop_first()));
        assert(seq![items[0]] + items.drop_first() =~= items);
    }
}

/// Encoded homogeneous collection elements decode back to themselves.
#[verifier::rlimit(100)]
#[verifier::spinoff_prover]
pub proof fn lemma_values_n_roundtrip(
    b: Seq<u8>,
    p: int,
    items: Seq<ValueV>,
    t: CqlValueType,
    sz: CqlBytesSize,
)
    requires
        sz == CqlBytesSize::Cqli16 || sz == CqlBytesSize::Cqli32,
        forall|i: int|
            0 <= i < items.len() ==> value_single_encodable(#[trigger] items[i], sz)
                && type_of_value(items[i]) == t,
        can_read(b, p, spec_encode_values(items, sz).len() as int),
        b.subrange(p, p + spec_encode_values(items, sz).len()) =~= spec_encode_values(items, sz),
    ensures
        spec_read_values(t, sz, b, p, items.len()) == Some(
            (items, p + spec_encode_values(items, sz).len()),
        ),
    decreases items.len(),
{
    let ee = spec_encode_values(items, sz);
    if items.len() == 0 {
        assert(spec_read_values(t, sz, b, p, 0) == Some((Seq::<ValueV>::empty(), p)));
        assert(items =~= Seq::<ValueV>::empty());
    } else {
        let e0 = spec_encode_value_single(items[0], sz);
        let rest = spec_encode_values(items.drop_first(), sz);
        assert(ee == e0 + rest);
        assert forall|i: int| 0 <= i < e0.len() implies b.subrange(p, p + e0.len())[i] == e0[i] by {
            assert(b.subrange(p, p + e0.len())[i] == b[p + i]);
            assert(b[p + i] == b.subrange(p, p + ee.len())[i]);
            assert(ee[i] == (e0 + rest)[i]);
        }
        assert(b.subrange(p, p + e0.len()) =~= e0);
        assert forall|i: int| 0 <= i < rest.len() implies b.subrange(
            p + e0.len(),
            p + e0.len() + rest.len(),
        )[i] == rest[i] by {
            assert(b.subrange(p + e0.len(), p + e0.len() + rest.len())[i] == b[p + e0.len() + i]);
            assert(b[p + e0.len() + i] == b.subrange(p, p + ee.len())[e0.len() + i]);
            assert(ee[e0.len() + i] == (e0 + rest)[e0.len() + i]);
        }
        assert(b.subrange(p + e0.len(), p + e0.len() + rest.len()) =~= rest);
        lemma_value_single_roundtrip(b, p, items[0], sz);
        lemma_values_n_roundtrip(b, p + e0.len(), items.drop_first(), t, sz);
        assert(seq![items[0]] + items.drop_first() =~= items);
    }
}

/// Encoded map entries decode back to themselves.
#[verifier::rlimit(100)]
#[verifier::spinoff_prover]
pub proof fn lemma_pairs_n_roundtrip(
    b: Seq<u8>,
    p: int,
    es: Seq<(ValueV, ValueV)>,
    kt: CqlValueType,
    vt: CqlValueType,
    sz: CqlBytesSize,
)
    requires
        sz == CqlBytesSize::Cqli16 || sz == CqlBytesSize::Cqli32,
        forall|i: int|
            0 <= i < es.len() ==> value_single_encodable((#[trigger] es[i]).0, sz)
                && value_single_encodable(es[i].1, sz) && type_of_value(es[i].0) == kt
                && type_of_value(es[i].1) == vt,
        can_read(b, p, crate::serialize::spec_encode_pairs(es, sz).len() as int),
        b.subrange(p, p + crate::serialize::spec_encode_pairs(es, sz).len())
            =~= crate::serialize::spec_encode_pairs(es, sz),
    ensures
        crate::grammar::spec_read_pairs(kt, vt, sz, b, p, es.len()) == Some(
            (es, p + crate::serialize::spec_encode_pairs(es, sz).len()),
        ),
    decreases es.len(),
{
    let ee = crate::serialize::spec_encode_pairs(es, sz);
    if es.len() == 0 {
        assert(es =~= Seq::<(ValueV, ValueV)>::empty());
    } else {
        let ek = spec_encode_value_single(es[0].0, sz);
        let ev = spec_encode_value_single(es[0].1, sz);
        let rest = crate::serialize::spec_encode_pairs(es.drop_first(), sz);
        assert(ee == ek + ev + rest);
        assert forall|i: int| 0 <= i < ee.len() implies b[p + i] == ee[i] by {
            assert(b.subrange(p, p + ee.len())[i] == b[p + i]);
        }
        assert(b.subrange(p, p + ek.len()) =~= ek);
        assert forall|i: int| 0 <= i < ev.len() implies b.subrange(
            p + ek.len(),
            p + ek.len() + ev.len(),
        )[i] == ev[i] by {
            assert(b.subrange(p + ek.len(), p + ek.len() + ev.len())[i] == b[p + ek.len() + i]);
            assert(ee[ek.len() + i] == (ek + ev)[ek.len() + i]);
        }
        assert(b.subrange(p + ek.len(), p + ek.len() + ev.len()) =~= ev);
        let pr = p + ek.len() + ev.len();
        assert forall|i: int| 0 <= i < rest.len() implies b.subrange(pr, pr + rest.len())[i]
            == rest[i] by {
            assert(b.subrange(pr, pr + rest.len())[i] == b[pr + i]);
            assert(ee[ek.len() + ev.len() + i] == rest[i]);
        }
        assert(b.subrange(pr, pr + rest.len()) =~= rest);
        lemma_value_single_roundtrip(b, p, es[0].0, sz);
        lemma_value_single_roundtrip(b, p + ek.len(), es[0].1, sz);
        lemma_pairs_n_roundtrip(b, pr, es.drop_first(), kt, vt, sz);
        assert(seq![(es[0].0, es[0].1)] + es.drop_first() =~= es);
    }
}

/// Whether a value, as it stands in a rows result, can be encoded with
/// the given collection width and decoded back.
pub open spec fn value_encodable(v: ValueV, sz: CqlBytesSize) -> bool {
    match v {
        ValueV::VList(Some(items)) => len_fits(items.len() as int, sz) && (forall|i: int|
            0 <= i < items.len() ==> value_single_encodable(#[trigger] items[i], sz)) && (enc_len(
            items.len() as int,
            sz,
        ) + spec_encode_values(items, sz)).len() <= 0x7FFF_FFFF,
        ValueV::VSet(Some(items)) => len_fits(items.len() as int, sz) && (forall|i: int|
            0 <= i < items.len() ==> value_single_encodable(#[trigger] items[i], sz)) && (enc_len(
            items.len() as int,
            sz,
        ) + spec_encode_values(items, sz)).len() <= 0x7FFF_FFFF,
        ValueV::VMap(Some(es)) => len_fits(es.len() as int, sz) && (forall|i: int|
            0 <= i < es.len() ==> value_single_encodable((#[trigger] es[i]).0, sz)
                && value_single_encodable(es[i].1, sz)) && (enc_len(es.len() as int, sz)
            + crate::serialize::spec_encode_pairs(es, sz)).len() <= 0x7FFF_FFFF,
        ValueV::VList(None) => true,
        ValueV::VSet(None) => true,
        ValueV::VMap(None) => true,
        _ => value_single_encodable(v, CqlBytesSize::Cqli32),
    }
}

/// Whether column metadata declares exactly the types the value carries.
pub open spec fn value_matches_col(v: ValueV, c: crate::def::ColMetaV) -> bool {
    c.col_type == type_of_value(v) && (match v {
        ValueV::VList(Some(items)) => forall|i: int|
            0 <= i < items.len() ==> type_of_value(#[trigger] items[i]) == c.col_type_aux1,
        ValueV::VSet(Some(items)) => forall|i: int|
            0 <= i < items.len() ==> type_of_value(#[trigger] items[i]) == c.col_type_aux1,
        ValueV::VMap(Some(es)) => forall|i: int|
            0 <= i < es.len() ==> type_of_value((#[trigger] es[i]).0) == c.col_type_aux1
                && type_of_value(es[i].1) == c.col_type_aux2,
        _ => true,
    })
}

/// Splits an encoded collection into its three parts: the 4-byte total
/// length, the element count, and the element bytes.
proof fn lemma_collection_parts(b: Seq<u8>, p: int, inner: Seq<u8>, sz: CqlBytesSize)
    requires
        sz == CqlBytesSize::Cqli16 || sz == CqlBytesSize::Cqli32,
        inner.len() <= 0x7FFF_FFFF,
        can_read(b, p, 4 + inner.len() as int),
        b.subrange(p, p + 4 + inner.len()) =~= enc_len(inner.len() as int, CqlBytesSize::Cqli32)
            + inner,
    ensures
        spec_read_len(b, p, CqlBytesSize::Cqli32) == Some((inner.len() as i32, p + 4)),
        b.subrange(p + 4, p + 4 + inner.len()) =~= inner,
{
    let o = enc_len(inner.len() as int, CqlBytesSize::Cqli32);
    let e = o + inner;
    assert forall|i: int| 0 <= i < 4 implies b.subrange(p, p + 4)[i] == o[i] by {
        assert(b.subrange(p, p + 4)[i] == b[p + i]);
        assert(b[p + i] == b.subrange(p, p + 4 + inner.len())[i]);
        assert(e[i] == o[i]);
    }
    assert(b.subrange(p, p + 4) =~= o);
    lemma_enc_len_at(b, p, inner.len() as int, CqlBytesSize::Cqli32);
    assert forall|i: int| 0 <= i < inner.len() implies b.subrange(p + 4, p + 4 + inner.len())[i]
        == inner[i] by {
        assert(b.subrange(p + 4, p + 4 + inner.len())[i] == b[p + 4 + i]);
        assert(b[p + 4 + i] == b.subrange(p, p + 4 + inner.len())[4 + i]);
        assert(e[4 + i] == inner[i]);
    }
}

/// Splits an encoded collection body into its count and element bytes.
proof fn lemma_inner_parts(b: Seq<u8>, p: int, cnt: int, ee: Seq<u8>, sz: CqlBytesSize)
    requires
        sz == CqlBytesSize::Cqli16 || sz == CqlBytesSize::Cqli32,
        len_fits(cnt, sz),
        can_read(b, p, len_width(sz) + ee.len() as int),
        b.subrange(p, p + len_width(sz) + ee.len()) =~= enc_len(cnt, sz) + ee,
    ensures
        spec_read_len(b, p, sz) == Some((cnt as i32, p + len_width(sz))),
        b.subrange(p + len_width(sz), p + len_width(sz) + ee.len()) =~= ee,
{
    let w = len_width(sz);
    let cl = enc_len(cnt, sz);
    let e = cl + ee;
    assert forall|i: int| 0 <= i < w implies b.subrange(p, p + w)[i] == cl[i] by {
        assert(b.subrange(p, p + w)[i] == b[p + i]);
        assert(b[p + i] == b.subrange(p, p + w + ee.len())[i]);
        assert(e[i] == cl[i]);
    }
    assert(b.subrange(p, p + w) =~= cl);
    lemma_enc_len_at(b, p, cnt, sz);
    assert forall|i: int| 0 <= i < ee.len() implies b.subrange(p + w, p + w + ee.len())[i] == ee[i]
        by {
        assert(b.subrange(p + w, p + w + ee.len())[i] == b[p + w + i]);
        assert(b[p + w + i] == b.subrange(p, p + w + ee.len())[w + i]);
        assert(e[w + i] == ee[i]);
    }
}

/// An encoded collection of single values decodes back to itself.
#[verifier::rlimit(100)]
#[verifier::spinoff_prover]
proof fn lemma_coll_items_roundtrip(
    b: Seq<u8>,
    p: int,
    items: Seq<ValueV>,
    t: CqlValueType,
    sz: CqlBytesSize,
)
    requires
        sz == CqlBytesSize::Cqli16 || sz == CqlBytesSize::Cqli32,
        len_fits(items.len() as int, sz),
        forall|i: int|
            0 <= i < items.len() ==> value_single_encodable(#[trigger] items[i], sz)
                && type_of_value(items[i]) == t,
        (enc_len(items.len() as int, sz) + spec_encode_values(items, sz)).len() <= 0x7FFF_FFFF,
        can_read(
            b,
            p,
            4 + (enc_len(items.len() as int, sz) + spec_encode_values(items, sz)).len() as int,
        ),
        b.subrange(
            p,
            p + 4 + (enc_len(items.len() as int, sz) + spec_encode_values(items, sz)).len(),
        ) =~= enc_len(
            (enc_len(items.len() as int, sz) + spec_encode_values(items, sz)).len() as int,
            CqlBytesSize::Cqli32,
        ) + (enc_len(items.len() as int, sz) + spec_encode_values(items, sz)),
    ensures
        spec_read_len(b, p, CqlBytesSize::Cqli32) == Some(
            (
                (enc_len(items.len() as int, sz) + spec_encode_values(items, sz)).len() as i32,
                p + 4,
            ),
        ),
        spec_read_len(b, p + 4, sz) == Some((items.len() as i32, p + 4 + len_width(sz))),
        spec_read_values(t, sz, b, p + 4 + len_width(sz), items.len()) == Some(
            (
                items,
                p + 4 + len_width(sz) + spec_encode_values(items, sz).len(),
            ),
        ),
{
    let w = len_width(sz);
    let ee = spec_encode_values(items, sz);
    let inner = enc_len(items.len() as int, sz) + ee;
    lemma_collection_parts(b, p, inner, sz);
    lemma_inner_parts(b, p + 4, items.len() as int, ee, sz);
    lemma_values_n_roundtrip(b, p + 4 + w, items, t, sz);
}

/// Encoded map entries with their count and total length decode back.
#[verifier::rlimit(100)]
#[verifier::spinoff_prover]
proof fn lemma_coll_pairs_roundtrip(
    b: Seq<u8>,
    p: int,
    es: Seq<(ValueV, ValueV)>,
    kt: CqlValueType,
    vt: CqlValueType,
    sz: CqlBytesSize,
)
    requires
        sz == CqlBytesSize::Cqli16 || sz == CqlBytesSize::Cqli32,
        len_fits(es.len() as int, sz),
        forall|i: int|
            0 <= i < es.len() ==> value_single_encodable((#[trigger] es[i]).0, sz)
                && value_single_encodable(es[i].1, sz) && type_of_value(es[i].0) == kt
                && type_of_value(es[i].1) == vt,
        (enc_len(es.len() as int, sz) + crate::serialize::spec_encode_pairs(es, sz)).len()
            <= 0x7FFF_FFFF,
        can_read(
            b,
            p,
            4 + (enc_len(es.len() as int, sz) + crate::serialize::spec_encode_pairs(es, sz)).len()
                as int,
        ),
        b.subrange(
            p,
            p + 4 + (enc_len(es.len() as int, sz) + crate::serialize::spec_encode_pairs(
                es,
                sz,
            )).len(),
        ) =~= enc_len(
            (enc_len(es.len() as int, sz) + crate::serialize::spec_encode_pairs(es, sz)).len()
                as int,
            CqlBytesSize::Cqli32,
        ) + (enc_len(es.len() as int, sz) + crate::serialize::spec_encode_pairs(es, sz)),
    ensures
        spec_read_len(b, p, CqlBytesSize::Cqli32) == Some(
            (
                (enc_len(es.len() as int, sz) + crate::serialize::spec_encode_pairs(
                    es,
                    sz,
                )).len() as i32,
                p + 4,
            ),
        ),
        spec_read_len(b, p + 4, sz) == Some((es.len() as i32, p + 4 + len_width(sz))),
        crate::grammar::spec_read_pairs(kt, vt, sz, b, p + 4 + len_width(sz), es.len()) == Some(
            (
                es,
                p + 4 + len_width(sz) + crate::serialize::spec_encode_pairs(es, sz).len(),
            ),
        ),
{
    let w = len_width(sz);
    let ee = crate::serialize::spec_encode_pairs(es, sz);
    let inner = enc_len(es.len() as int, sz) + ee;
    lemma_collection_parts(b, p, inner, sz);
    lemma_inner_parts(b, p + 4, es.len() as int, ee, sz);
    lemma_pairs_n_roundtrip(b, p + 4 + w, es, kt, vt, sz);
}

/// An encoded non-null list decodes back to itself.
#[verifier::rlimit(100)]
#[verifier::spinoff_prover]
proof fn lemma_value_roundtrip_vlist(
    b: Seq<u8>,
    p: int,
    items: Seq<ValueV>,
    c: crate::def::ColMetaV,
    sz: CqlBytesSize,
)
    requires
        sz == CqlBytesSize::Cqli16 || sz == CqlBytesSize::Cqli32,
        value_encodable(ValueV::VList(Some(items)), sz),
        value_matches_col(ValueV::VList(Some(items)), c),
        can_read(b, p, spec_encode_value(ValueV::VList(Some(items)), sz).len() as int),
        b.subrange(p, p + spec_encode_value(ValueV::VList(Some(items)), sz).len())
            =~= spec_encode_value(ValueV::VList(Some(items)), sz),
    ensures
        spec_read_value(c, sz, b, p) == Some(
            (
                ValueV::VList(Some(items)),
                p + spec_encode_value(ValueV::VList(Some(items)), sz).len(),
            ),
        ),
{
    lemma_coll_items_roundtrip(b, p, items, c.col_type_aux1, sz);
}

/// An encoded non-null set decodes back to itself.
#[verifier::rlimit(100)]
#[verifier::spinoff_prover]
proof fn lemma_value_roundtrip_vset(
    b: Seq<u8>,
    p: int,
    items: Seq<ValueV>,
    c: crate::def::ColMetaV,
    sz: CqlBytesSize,
)
    requires
        sz == CqlBytesSize::Cqli16 || sz == CqlBytesSize::Cqli32,
        value_encodable(ValueV::VSet(Some(items)), sz),
        value_matches_col(ValueV::VSet(Some(items)), c),
        can_read(b, p, spec_encode_value(ValueV::VSet(Some(items)), sz).len() as int),
        b.subrange(p, p + spec_encode_value(ValueV::VSet(Some(items)), sz).len())
            =~= spec_encode_value(ValueV::VSet(Some(items)), sz),
    ensures
        spec_read_value(c, sz, b, p) == Some(
            (
                ValueV::VSet(Some(items)),
                p + spec_encode_value(ValueV::VSet(Some(items)), sz).len(),
            ),
        ),
{
    lemma_coll_items_roundtrip(b, p, items, c.col_type_aux1, sz);
}

/// An encoded non-null map decodes back to itself.
#[verifier::rlimit(100)]
#[verifier::spinoff_prover]
proof fn lemma_value_roundtrip_vmap(
    b: Seq<u8>,
    p: int,
    es: Seq<(ValueV, ValueV)>,
    c: crate::def::ColMetaV,
    sz: CqlBytesSize,
)
    requires
        sz == CqlBytesSize::Cqli16 || sz == CqlBytesSize::Cqli32,
        value_encodable(ValueV::VMap(Some(es)), sz),
        value_matches_col(ValueV::VMap(Some(es)), c),
        can_read(b, p, spec_encode_value(ValueV::VMap(Some(es)), sz).len() as int),
        b.subrange(p, p + spec_encode_value(ValueV::VMap(Some(es)), sz).len())
            =~= spec_encode_value(ValueV::VMap(Some(es)), sz),
    ensures
        spec_read_value(c, sz, b, p) == Some(
            (ValueV::VMap(Some(es)), p + spec_encode_value(ValueV::VMap(Some(es)), sz).len()),
        ),
{
    lemma_coll_pairs_roundtrip(b, p, es, c.col_type_aux1, c.col_type_aux2, sz);
    let w = len_width(sz);
    let ee = crate::serialize::spec_encode_pairs(es, sz);
    let inner = enc_len(es.len() as int, sz) + ee;
    assert(c.col_type == CqlValueType::ColumnMap);
    assert(spec_read_len(b, p, CqlBytesSize::Cqli32) == Some((inner.len() as i32, p + 4)));
    assert(spec_read_len(b, p + 4, sz) == Some((es.len() as i32, p + 4 + w)));
    assert(crate::grammar::spec_read_pairs(
        c.col_type_aux1,
        c.col_type_aux2,
        sz,
        b,
        p + 4 + w,
        es.len(),
    ) == Some((es, p + 4 + w + ee.len())));
    assert((es.len() as i32) as nat == es.len());
}

/// An encoded single value in a rows result decodes back to itself.
#[verifier::rlimit(100)]
#[verifier::spinoff_prover]
proof fn lemma_value_roundtrip_single_col(
    b: Seq<u8>,
    p: int,
    v: ValueV,
    c: crate::def::ColMetaV,
    sz: CqlBytesSize,
)
    requires
        sz == CqlBytesSize::Cqli16 || sz == CqlBytesSize::Cqli32,
        !(v is VList),
        !(v is VSet),
        !(v is VMap),
        value_encodable(v, sz),
        value_matches_col(v, c),
        can_read(b, p, spec_encode_value(v, sz).len() as int),
        b.subrange(p, p + spec_encode_value(v, sz).len()) =~= spec_encode_value(v, sz),
    ensures
        spec_read_value(c, sz, b, p) == Some((v, p + spec_encode_value(v, sz).len())),
{
    lemma_value_single_roundtrip(b, p, v, CqlBytesSize::Cqli32);
}

/// An encoded column value decodes back to itself, against metadata that
/// declares its types.
#[verifier::rlimit(100)]
#[verifier::spinoff_prover]
pub proof fn lemma_value_roundtrip(
    b: Seq<u8>,
    p: int,
    v: ValueV,
    c: crate::def::ColMetaV,
    sz: CqlBytesSize,
)
    requires
        sz == CqlBytesSize::Cqli16 || sz == CqlBytesSize::Cqli32,
        value_encodable(v, sz),
        value_matches_col(v, c),
        can_read(b, p, spec_encode_value(v, sz).len() as int),
        b.subrange(p, p + spec_encode_value(v, sz).len()) =~= spec_encode_value(v, sz),
    ensures
        spec_read_value(c, sz, b, p) == Some((v, p + spec_encode_value(v, sz).len())),
{
    match v {
        ValueV::VList(None) => {
            lemma_enc_len_at(b, p, -1, CqlBytesSize::Cqli32);
        },
        ValueV::VSet(None) => {
            lemma_enc_len_at(b, p, -1, CqlBytesSize::Cqli32);
        },
        ValueV::VMap(None) => {
            lemma_enc_len_at(b, p, -1, CqlBytesSize::Cqli32);
        },
        ValueV::VList(Some(items)) => {
            lemma_value_roundtrip_vlist(b, p, items, c, sz);
        },
        ValueV::VSet(Some(items)) => {
            lemma_value_roundtrip_vset(b, p, items, c, sz);
        },
        ValueV::VMap(Some(es)) => {
            lemma_value_roundtrip_vmap(b, p, es, c, sz);
        },
        _ => {
            lemma_value_roundtrip_single_col(b, p, v, c, sz);
        },
    }
}

/// A null typed value decodes back as null, and its encoding differs from
/// the empty value's: null is never confused with empty.
pub proof fn law_null_preserved(b: Seq<u8>, p: int, v: ValueV, c: crate::def::ColMetaV, sz: CqlBytesSize)
    requires
        sz == CqlBytesSize::Cqli16 || sz == CqlBytesSize::Cqli32,
        value_is_null(v),
        value_encodable(v, sz),
        value_matches_col(v, c),
        can_read(b, p, spec_encode_value(v, sz).len() as int),
        b.subrange(p, p + spec_encode_value(v, sz).len()) =~= spec_encode_value(v, sz),
    ensures
        spec_read_value(c, sz, b, p) == Some((v, p + spec_encode_value(v, sz).len())),
        v matches ValueV::VBlob(o) ==> spec_encode_value(v, sz) != spec_encode_value(
            ValueV::VBlob(Some(Seq::empty())),
            sz,
        ),
{
    lemma_value_roundtrip(b, p, v, c, sz);
    if v matches ValueV::VBlob(o) {
        let null_e = spec_encode_value(v, sz);
        let empty_e = spec_encode_value(ValueV::VBlob(Some(Seq::<u8>::empty())), sz);
        assert(null_e == enc_len(-1, CqlBytesSize::Cqli32));
        assert(empty_e == enc_len(0, CqlBytesSize::Cqli32));
        assert(null_e[0] == 0xFFu8);
        assert(empty_e[0] == 0u8);
    }
}

/// Splits bytes known to hold a concatenation into its two parts.
pub proof fn lemma_split_concat(b: Seq<u8>, p: int, x: Seq<u8>, y: Seq<u8>)
    requires
        can_read(b, p, x.len() + y.len() as int),
        b.subrange(p, p + x.len() + y.len()) =~= x + y,
    ensures
        b.subrange(p, p + x.len()) =~= x,
        b.subrange(p + x.len(), p + x.len() + y.len()) =~= y,
{
    let e = x + y;
    assert forall|i: int| 0 <= i < x.len() implies b.subrange(p, p + x.len())[i] == x[i] by {
        assert(b.subrange(p, p + x.len())[i] == b[p + i]);
        assert(b[p + i] == b.subrange(p, p + e.len())[i]);
        assert(e[i] == x[i]);
    }
    assert forall|i: int| 0 <= i < y.len() implies b.subrange(
        p + x.len(),
        p + x.len() + y.len(),
    )[i] == y[i] by {
        assert(b.subrange(p + x.len(), p + x.len() + y.len())[i] == b[p + x.len() + i]);
        assert(b[p + x.len() + i] == b.subrange(p, p + e.len())[x.len() + i]);
        assert(e[x.len() + i] == y[i]);
    }
}

/// An encoded short string reads back as itself.
pub proof fn lemma_short_str_at(b: Seq<u8>, p: int, s: Seq<char>)
    requires
        crate::serialize::short_str_ok(s),
        can_read(b, p, enc_short_str(s).len() as int),
        b.subrange(p, p + enc_short_str(s).len()) =~= enc_short_str(s),
    ensures
        spec_read_str_nn(b, p, CqlBytesSize::Cqli16) == Some((s, p + enc_short_str(s).len())),
{
    let u = encode_utf8(s);
    assert(be2(u.len() as u16) =~= enc_len(u.len() as int, CqlBytesSize::Cqli16));
    lemma_split_concat(b, p, be2(u.len() as u16), u);
    assert(b.subrange(p, p + 2) =~= enc_len(u.len() as int, CqlBytesSize::Cqli16));
    lemma_enc_len_at(b, p, u.len() as int, CqlBytesSize::Cqli16);
    encode_utf8_valid_utf8(s);
    encode_utf8_decode_utf8(s);
}

/// An encoded long string reads back as itself.
pub proof fn lemma_long_str_at(b: Seq<u8>, p: int, s: Seq<char>)
    requires
        crate::serialize::long_str_ok(s),
        can_read(b, p, enc_long_str(s).len() as int),
        b.subrange(p, p + enc_long_str(s).len()) =~= enc_long_str(s),
    ensures
        spec_read_str_nn(b, p, CqlBytesSize::Cqli32) == Some((s, p + enc_long_str(s).len())),
{
    let u = encode_utf8(s);
    assert(be4(u.len() as u32) =~= enc_len(u.len() as int, CqlBytesSize::Cqli32));
    lemma_split_concat(b, p, be4(u.len() as u32), u);
    assert(b.subrange(p, p + 4) =~= enc_len(u.len() as int, CqlBytesSize::Cqli32));
    lemma_enc_len_at(b, p, u.len() as int, CqlBytesSize::Cqli32);
    encode_utf8_valid_utf8(s);
    encode_utf8_decode_utf8(s);
}

/// Encoded short bytes read back as themselves.
pub proof fn lemma_short_bytes_at(b: Seq<u8>, p: int, x: Seq<u8>)
    requires
        x.len() <= 0x7FFF,
        can_read(b, p, enc_short_bytes(x).len() as int),
        b.subrange(p, p + enc_short_bytes(x).len()) =~= enc_short_bytes(x),
    ensures
        spec_read_bytes_opt(b, p, CqlBytesSize::Cqli16) == Some(
            (Some(x), p + enc_short_bytes(x).len()),
        ),
{
    assert(be2(x.len() as u16) =~= enc_len(x.len() as int, CqlBytesSize::Cqli16));
    lemma_split_concat(b, p, be2(x.len() as u16), x);
    assert(b.subrange(p, p + 2) =~= enc_len(x.len() as int, CqlBytesSize::Cqli16));
    lemma_enc_len_at(b, p, x.len() as int, CqlBytesSize::Cqli16);
}

/// Encoded bound values with their count read back as themselves.
pub proof fn lemma_params_at(b: Seq<u8>, p: int, vs: Seq<ValueV>, sz: CqlBytesSize)
    requires
        sz == CqlBytesSize::Cqli16 || sz == CqlBytesSize::Cqli32,
        vs.len() <= 0xFFFF,
        forall|i: int| 0 <= i < vs.len() ==> value_single_encodable(#[trigger] vs[i], sz),
        can_read(b, p, 2 + spec_encode_values(vs, sz).len() as int),
        b.subrange(p, p + 2 + spec_encode_values(vs, sz).len()) =~= be2(vs.len() as u16)
            + spec_encode_values(vs, sz),
    ensures
        crate::grammar::spec_read_params(b, p, types_of_values(vs), sz) == Some(
            (vs, p + 2 + spec_encode_values(vs, sz).len()),
        ),
{
    lemma_split_concat(b, p, be2(vs.len() as u16), spec_encode_values(vs, sz));
    lemma_be2_at(b, p, vs.len() as u16);
    lemma_typed_values_roundtrip(b, p + 2, vs, sz);
    assert(types_of_values(vs).len() == vs.len());
}

/// An encoded string map reads back as itself.
#[verifier::rlimit(100)]
#[verifier::spinoff_prover]
pub proof fn lemma_string_map_roundtrip(b: Seq<u8>, p: int, pairs: Seq<(Seq<char>, Seq<char>)>)
    requires
        forall|i: int|
            0 <= i < pairs.len() ==> crate::serialize::short_str_ok((#[trigger] pairs[i]).0)
                && crate::serialize::short_str_ok(pairs[i].1),
        can_read(b, p, spec_encode_string_map(pairs).len() as int),
        b.subrange(p, p + spec_encode_string_map(pairs).len()) =~= spec_encode_string_map(pairs),
    ensures
        crate::grammar::spec_read_string_map(b, p, pairs.len()) == Some(
            (pairs, p + spec_encode_string_map(pairs).len()),
        ),
    decreases pairs.len(),
{
    if pairs.len() == 0 {
        assert(pairs =~= Seq::<(Seq<char>, Seq<char>)>::empty());
    } else {
        let ek = enc_short_str(pairs[0].0);
        let ev = enc_short_str(pairs[0].1);
        let rest = spec_encode_string_map(pairs.drop_first());
        assert(spec_encode_string_map(pairs) == ek + ev + rest);
        assert(ek + ev + rest =~= ek + (ev + rest));
        lemma_split_concat(b, p, ek, ev + rest);
        lemma_split_concat(b, p + ek.len(), ev, rest);
        lemma_short_str_at(b, p, pairs[0].0);
        lemma_short_str_at(b, p + ek.len(), pairs[0].1);
        lemma_string_map_roundtrip(b, p + ek.len() + ev.len(), pairs.drop_first());
        assert(seq![(pairs[0].0, pairs[0].1)] + pairs.drop_first() =~= pairs);
    }
}

/// An encoded string list reads back as itself.
#[verifier::rlimit(100)]
#[verifier::spinoff_prover]
pub proof fn lemma_str_list_roundtrip(b: Seq<u8>, p: int, ss: Seq<Seq<char>>)
    requires
        forall|i: int| 0 <= i < ss.len() ==> crate::serialize::short_str_ok(#[trigger] ss[i]),
        can_read(b, p, spec_encode_str_list(ss).len() as int),
        b.subrange(p, p + spec_encode_str_list(ss).len()) =~= spec_encode_str_list(ss),
    ensures
        crate::grammar::spec_read_str_list(b, p, ss.len()) == Some(
            (ss, p + spec_encode_str_list(ss).len()),
        ),
    decreases ss.len(),
{
    if ss.len() == 0 {
        assert(ss =~= Seq::<Seq<char>>::empty());
    } else {
        let e0 = enc_short_str(ss[0]);
        let rest = spec_encode_str_list(ss.drop_first());
        assert(spec_encode_str_list(ss) == e0 + rest);
        lemma_split_concat(b, p, e0, rest);
        lemma_short_str_at(b, p, ss[0]);
        lemma_str_list_roundtrip(b, p + e0.len(), ss.drop_first());
        assert(seq![ss[0]] + ss.drop_first() =~= ss);
    }
}

/// The declared parameter types of one batch statement.
pub open spec fn types_of_query(q: crate::def::QueryV) -> Seq<CqlValueType> {
    match q {
        crate::def::QueryV::QueryStrV(_, vs) => types_of_values(vs),
        crate::def::QueryV::QueryPreparedV(_, vs) => types_of_values(vs),
    }
}

/// The type context a request decoder needs: the declared parameter types
/// of each statement carrying bound values.
pub open spec fn ctx_of_body(body: crate::def::RequestBodyV) -> Seq<Seq<CqlValueType>> {
    match body {
        crate::def::RequestBodyV::ExecV(_, vs, _, _) => seq![types_of_values(vs)],
        crate::def::RequestBodyV::BatchV(qs, _, _, _) => Seq::new(
            qs.len(),
            |i: int| types_of_query(qs[i]),
        ),
        _ => Seq::empty(),
    }
}

/// The opcode that names a body's variant.
pub open spec fn op_of_body(body: crate::def::RequestBodyV) -> crate::def::OpcodeRequest {
    match body {
        crate::def::RequestBodyV::StartupV(_) => crate::def::OpcodeRequest::OpcodeStartup,
        crate::def::RequestBodyV::CredV(_) => crate::def::OpcodeRequest::OpcodeCred,
        crate::def::RequestBodyV::OptionsV => crate::def::OpcodeRequest::OpcodeOptions,
        crate::def::RequestBodyV::QueryReqV(_, _, _) => crate::def::OpcodeRequest::OpcodeQuery,
        crate::def::RequestBodyV::PrepareV(_) => crate::def::OpcodeRequest::OpcodePrepare,
        crate::def::RequestBodyV::ExecV(_, _, _, _) => crate::def::OpcodeRequest::OpcodeExecute,
        crate::def::RequestBodyV::BatchV(_, _, _, _) => crate::def::OpcodeRequest::OpcodeBatch,
        crate::def::RequestBodyV::RegisterV(_) => crate::def::OpcodeRequest::OpcodeRegister,
    }
}

/// An encoded plain-string batch statement reads back as itself.
#[verifier::rlimit(100)]
#[verifier::spinoff_prover]
proof fn lemma_query_str_roundtrip(
    b: Seq<u8>,
    p: int,
    s: Seq<char>,
    vs: Seq<ValueV>,
    sz: CqlBytesSize,
)
    requires
        sz == CqlBytesSize::Cqli16 || sz == CqlBytesSize::Cqli32,
        crate::serialize::query_encodable(crate::def::QueryV::QueryStrV(s, vs), sz),
        can_read(
            b,
            p,
            crate::serialize::spec_encode_query(crate::def::QueryV::QueryStrV(s, vs), sz).len()
                as int,
        ),
        b.subrange(
            p,
            p + crate::serialize::spec_encode_query(crate::def::QueryV::QueryStrV(s, vs), sz).len(),
        ) =~= crate::serialize::spec_encode_query(crate::def::QueryV::QueryStrV(s, vs), sz),
    ensures
        crate::grammar::spec_read_query(b, p, types_of_values(vs), sz) == Some(
            (
                crate::def::QueryV::QueryStrV(s, vs),
                p + crate::serialize::spec_encode_query(crate::def::QueryV::QueryStrV(s, vs), sz).len(),
            ),
        ),
{
    let q = crate::def::QueryV::QueryStrV(s, vs);
    let ls = enc_long_str(s);
    let h = seq![0u8] + ls;
    let rest = be2(vs.len() as u16) + spec_encode_values(vs, sz);
    assert(crate::serialize::spec_encode_query(q, sz) =~= h + rest);
    lemma_split_concat(b, p, h, rest);
    lemma_split_concat(b, p, seq![0u8], ls);
    assert(b[p] == b.subrange(p, p + 1)[0]);
    lemma_long_str_at(b, p + 1, s);
    lemma_params_at(b, p + h.len(), vs, sz);
}

/// An encoded prepared-id batch statement reads back as itself.
#[verifier::rlimit(100)]
#[verifier::spinoff_prover]
proof fn lemma_query_prep_roundtrip(
    b: Seq<u8>,
    p: int,
    id: Seq<u8>,
    vs: Seq<ValueV>,
    sz: CqlBytesSize,
)
    requires
        sz == CqlBytesSize::Cqli16 || sz == CqlBytesSize::Cqli32,
        crate::serialize::query_encodable(crate::def::QueryV::QueryPreparedV(id, vs), sz),
        can_read(
            b,
            p,
            crate::serialize::spec_encode_query(crate::def::QueryV::QueryPreparedV(id, vs), sz).len()
                as int,
        ),
        b.subrange(
            p,
            p + crate::serialize::spec_encode_query(
                crate::def::QueryV::QueryPreparedV(id, vs),
                sz,
            ).len(),
        ) =~= crate::serialize::spec_encode_query(crate::def::QueryV::QueryPreparedV(id, vs), sz),
    ensures
        crate::grammar::spec_read_query(b, p, types_of_values(vs), sz) == Some(
            (
                crate::def::QueryV::QueryPreparedV(id, vs),
                p + crate::serialize::spec_encode_query(
                    crate::def::QueryV::QueryPreparedV(id, vs),
                    sz,
                ).len(),
            ),
        ),
{
    let q = crate::def::QueryV::QueryPreparedV(id, vs);
    let sb = enc_short_bytes(id);
    let h = seq![1u8] + sb;
    let rest = be2(vs.len() as u16) + spec_encode_values(vs, sz);
    assert(crate::serialize::spec_encode_query(q, sz) =~= h + rest);
    lemma_split_concat(b, p, h, rest);
    lemma_split_concat(b, p, seq![1u8], sb);
    assert(b[p] == b.subrange(p, p + 1)[0]);
    lemma_short_bytes_at(b, p + 1, id);
    lemma_params_at(b, p + h.len(), vs, sz);
}

/// An encoded batch statement reads back as itself.
proof fn lemma_query_roundtrip(b: Seq<u8>, p: int, q: crate::def::QueryV, sz: CqlBytesSize)
    requires
        sz == CqlBytesSize::Cqli16 || sz == CqlBytesSize::Cqli32,
        crate::serialize::query_encodable(q, sz),
        can_read(b, p, crate::serialize::spec_encode_query(q, sz).len() as int),
        b.subrange(p, p + crate::serialize::spec_encode_query(q, sz).len())
            =~= crate::serialize::spec_encode_query(q, sz),
    ensures
        crate::grammar::spec_read_query(b, p, types_of_query(q), sz) == Some(
            (q, p + crate::serialize::spec_encode_query(q, sz).len()),
        ),
{
    match q {
        crate::def::QueryV::QueryStrV(s, vs) => {
            lemma_query_str_roundtrip(b, p, s, vs, sz);
        },
        crate::def::QueryV::QueryPreparedV(id, vs) => {
            lemma_query_prep_roundtrip(b, p, id, vs, sz);
        },
    }
}

/// The context of a sequence of batch statements.
pub open spec fn ctx_of_queries(qs: Seq<crate::def::QueryV>) -> Seq<Seq<CqlValueType>> {
    Seq::new(qs.len(), |i: int| types_of_query(qs[i]))
}

/// Encoded batch statements read back as themselves.
#[verifier::rlimit(100)]
#[verifier::spinoff_prover]
proof fn lemma_queries_roundtrip(b: Seq<u8>, p: int, qs: Seq<crate::def::QueryV>, sz: CqlBytesSize)
    requires
        sz == CqlBytesSize::Cqli16 || sz == CqlBytesSize::Cqli32,
        forall|i: int|
            0 <= i < qs.len() ==> crate::serialize::query_encodable(#[trigger] qs[i], sz),
        can_read(b, p, crate::serialize::spec_encode_queries(qs, sz).len() as int),
        b.subrange(p, p + crate::serialize::spec_encode_queries(qs, sz).len())
            =~= crate::serialize::spec_encode_queries(qs, sz),
    ensures
        crate::grammar::spec_read_queries(b, p, ctx_of_queries(qs), sz) == Some(
            (qs, p + crate::serialize::spec_encode_queries(qs, sz).len()),
        ),
    decreases qs.len(),
{
    if qs.len() == 0 {
        assert(qs =~= Seq::<crate::def::QueryV>::empty());
        assert(ctx_of_queries(qs) =~= Seq::<Seq<CqlValueType>>::empty());
    } else {
        let e0 = crate::serialize::spec_encode_query(qs[0], sz);
        let rest = crate::serialize::spec_encode_queries(qs.drop_first(), sz);
        assert(crate::serialize::spec_encode_queries(qs, sz) == e0 + rest);
        lemma_split_concat(b, p, e0, rest);
        lemma_query_roundtrip(b, p, qs[0], sz);
        lemma_queries_roundtrip(b, p + e0.len(), qs.drop_first(), sz);
        assert(ctx_of_queries(qs)[0] == types_of_query(qs[0]));
        assert(ctx_of_queries(qs).drop_first() =~= ctx_of_queries(qs.drop_first()));
        assert(seq![qs[0]] + qs.drop_first() =~= qs);
    }
}

/// Every consistency wire value reads back as the level it encodes.
proof fn lemma_consistency_inverse(c: crate::def::Consistency)
    ensures
        crate::def::spec_consistency_from(crate::def::spec_consistency_value(c)) == Some(c),
{
}

/// A startup body reads back as itself.
#[verifier::rlimit(100)]
#[verifier::spinoff_prover]
proof fn lemma_body_startup(pairs: Seq<(Seq<char>, Seq<char>)>, version: u8)
    requires
        1 <= version <= 3,
        crate::serialize::body_encodable(crate::def::RequestBodyV::StartupV(pairs), version),
    ensures
        crate::grammar::spec_read_request_body(
            crate::def::OpcodeRequest::OpcodeStartup,
            version,
            crate::serialize::spec_encode_request_body(
                crate::def::RequestBodyV::StartupV(pairs),
                version,
            ),
            Seq::empty(),
        ) == Some(crate::def::RequestBodyV::StartupV(pairs)),
{
    let e = crate::serialize::spec_encode_request_body(
        crate::def::RequestBodyV::StartupV(pairs),
        version,
    );
    lemma_split_concat(e, 0, be2(pairs.len() as u16), spec_encode_string_map(pairs));
    lemma_be2_at(e, 0, pairs.len() as u16);
    lemma_string_map_roundtrip(e, 2, pairs);
}

/// A credentials or register body reads back as itself.
#[verifier::rlimit(100)]
#[verifier::spinoff_prover]
proof fn lemma_body_str_list(ss: Seq<Seq<char>>, version: u8, cred: bool)
    requires
        1 <= version <= 3,
        ss.len() <= 0xFFFF,
        forall|i: int| 0 <= i < ss.len() ==> crate::serialize::short_str_ok(#[trigger] ss[i]),
    ensures
        cred ==> crate::grammar::spec_read_request_body(
            crate::def::OpcodeRequest::OpcodeCred,
            version,
            crate::serialize::spec_encode_request_body(
                crate::def::RequestBodyV::CredV(ss),
                version,
            ),
            Seq::empty(),
        ) == Some(crate::def::RequestBodyV::CredV(ss)),
        !cred ==> crate::grammar::spec_read_request_body(
            crate::def::OpcodeRequest::OpcodeRegister,
            version,
            crate::serialize::spec_encode_request_body(
                crate::def::RequestBodyV::RegisterV(ss),
                version,
            ),
            Seq::empty(),
        ) == Some(crate::def::RequestBodyV::RegisterV(ss)),
{
    if cred {
        let e = crate::serialize::spec_encode_request_body(
            crate::def::RequestBodyV::CredV(ss),
            version,
        );
        lemma_split_concat(e, 0, be2(ss.len() as u16), spec_encode_str_list(ss));
        lemma_be2_at(e, 0, ss.len() as u16);
        lemma_str_list_roundtrip(e, 2, ss);
    } else {
        let e = crate::serialize::spec_encode_request_body(
            crate::def::RequestBodyV::RegisterV(ss),
            version,
        );
        lemma_split_concat(e, 0, be2(ss.len() as u16), spec_encode_str_list(ss));
        lemma_be2_at(e, 0, ss.len() as u16);
        lemma_str_list_roundtrip(e, 2, ss);
    }
}

/// A query body reads back as itself.
#[verifier::rlimit(100)]
#[verifier::spinoff_prover]
proof fn lemma_body_query(s: Seq<char>, c: crate::def::Consistency, f: u8, version: u8)
    requires
        1 <= version <= 3,
        crate::serialize::long_str_ok(s),
    ensures
        crate::grammar::spec_read_request_body(
            crate::def::OpcodeRequest::OpcodeQuery,
            version,
            crate::serialize::spec_encode_request_body(
                crate::def::RequestBodyV::QueryReqV(s, c, f),
                version,
            ),
            Seq::empty(),
        ) == Some(crate::def::RequestBodyV::QueryReqV(s, c, f)),
{
    let e = crate::serialize::spec_encode_request_body(
        crate::def::RequestBodyV::QueryReqV(s, c, f),
        version,
    );
    let ls = enc_long_str(s);
    let tail = be2(crate::def::spec_consistency_value(c)) + seq![f];
    assert(e =~= ls + tail);
    lemma_split_concat(e, 0, ls, tail);
    lemma_long_str_at(e, 0, s);
    let p1 = ls.len() as int;
    lemma_split_concat(e, p1, be2(crate::def::spec_consistency_value(c)), seq![f]);
    lemma_be2_at(e, p1, crate::def::spec_consistency_value(c));
    lemma_consistency_inverse(c);
    assert(e[p1 + 2] == e.subrange(p1 + 2, p1 + 3)[0]);
}

/// A prepare body reads back as itself.
#[verifier::rlimit(100)]
#[verifier::spinoff_prover]
proof fn lemma_body_prepare(s: Seq<char>, version: u8)
    requires
        1 <= version <= 3,
        crate::serialize::long_str_ok(s),
    ensures
        crate::grammar::spec_read_request_body(
            crate::def::OpcodeRequest::OpcodePrepare,
            version,
            crate::serialize::spec_encode_request_body(
                crate::def::RequestBodyV::PrepareV(s),
                version,
            ),
            Seq::empty(),
        ) == Some(crate::def::RequestBodyV::PrepareV(s)),
{
    let e = crate::serialize::spec_encode_request_body(
        crate::def::RequestBodyV::PrepareV(s),
        version,
    );
    assert(e =~= enc_long_str(s));
    assert(e.subrange(0, e.len() as int) =~= e);
    lemma_long_str_at(e, 0, s);
}

/// An execute body reads back as itself.
#[verifier::rlimit(100)]
#[verifier::spinoff_prover]
proof fn lemma_body_exec(
    id: Seq<u8>,
    vs: Seq<ValueV>,
    c: crate::def::Consistency,
    f: u8,
    version: u8,
)
    requires
        1 <= version <= 3,
        crate::serialize::body_encodable(
            crate::def::RequestBodyV::ExecV(id, vs, c, f),
            version,
        ),
    ensures
        crate::grammar::spec_read_request_body(
            crate::def::OpcodeRequest::OpcodeExecute,
            version,
            crate::serialize::spec_encode_request_body(
                crate::def::RequestBodyV::ExecV(id, vs, c, f),
                version,
            ),
            seq![types_of_values(vs)],
        ) == Some(crate::def::RequestBodyV::ExecV(id, vs, c, f)),
{
    let e = crate::serialize::spec_encode_request_body(
        crate::def::RequestBodyV::ExecV(id, vs, c, f),
        version,
    );
    let sz = crate::serialize::spec_value_size(version);
    assert(sz == crate::grammar::spec_param_size(version));
    let sb = enc_short_bytes(id);
    let ps = be2(vs.len() as u16) + spec_encode_values(vs, sz);
    let tail = be2(crate::def::spec_consistency_value(c)) + seq![f];
    assert(e =~= sb + (ps + tail));
    lemma_split_concat(e, 0, sb, ps + tail);
    lemma_split_concat(e, sb.len() as int, ps, tail);
    lemma_short_bytes_at(e, 0, id);
    lemma_params_at(e, sb.len() as int, vs, sz);
    let p1 = sb.len() + ps.len() as int;
    lemma_split_concat(e, p1, be2(crate::def::spec_consistency_value(c)), seq![f]);
    lemma_be2_at(e, p1, crate::def::spec_consistency_value(c));
    lemma_consistency_inverse(c);
    assert(e[p1 + 2] == e.subrange(p1 + 2, p1 + 3)[0]);
}

/// The consistency and flag tail of a body reads back as its fields.
proof fn lemma_body_tail(e: Seq<u8>, p1: int, c: crate::def::Consistency, f: u8)
    requires
        can_read(e, p1, 3),
        e.subrange(p1, p1 + 3) =~= be2(crate::def::spec_consistency_value(c)) + seq![f],
    ensures
        crate::def::spec_consistency_from(u16_at(e, p1)) == Some(c),
        e[p1 + 2] == f,
{
    lemma_split_concat(e, p1, be2(crate::def::spec_consistency_value(c)), seq![f]);
    lemma_be2_at(e, p1, crate::def::spec_consistency_value(c));
    lemma_consistency_inverse(c);
    assert(e[p1 + 2] == e.subrange(p1 + 2, p1 + 3)[0]);
}

/// Assembles a parsed batch body from its parsed parts.
proof fn lemma_batch_assemble(
    e: Seq<u8>,
    qs: Seq<crate::def::QueryV>,
    t: crate::def::BatchType,
    c: crate::def::Consistency,
    f: u8,
    version: u8,
    p1: int,
)
    requires
        1 <= version <= 3,
        can_read(e, 0, 3),
        crate::def::spec_batch_type_from(e[0]) == Some(t),
        u16_at(e, 1) == qs.len() as u16,
        qs.len() <= 0xFFFF,
        crate::grammar::spec_read_queries(
            e,
            3,
            ctx_of_queries(qs),
            crate::grammar::spec_param_size(version),
        ) == Some((qs, p1)),
        can_read(e, p1, 3),
        crate::def::spec_consistency_from(u16_at(e, p1)) == Some(c),
        e[p1 + 2] == f,
    ensures
        crate::grammar::spec_read_request_body(
            crate::def::OpcodeRequest::OpcodeBatch,
            version,
            e,
            ctx_of_queries(qs),
        ) == Some(crate::def::RequestBodyV::BatchV(qs, t, c, f)),
{
    assert(ctx_of_queries(qs).len() == qs.len());
}

/// A batch body reads back as itself.
#[verifier::rlimit(100)]
#[verifier::spinoff_prover]
proof fn lemma_body_batch(
    qs: Seq<crate::def::QueryV>,
    t: crate::def::BatchType,
    c: crate::def::Consistency,
    f: u8,
    version: u8,
)
    requires
        1 <= version <= 3,
        qs.len() <= 0xFFFF,
        forall|i: int|
            0 <= i < qs.len() ==> crate::serialize::query_encodable(
                #[trigger] qs[i],
                crate::serialize::spec_value_size(version),
            ),
    ensures
        crate::grammar::spec_read_request_body(
            crate::def::OpcodeRequest::OpcodeBatch,
            version,
            crate::serialize::spec_encode_request_body(
                crate::def::RequestBodyV::BatchV(qs, t, c, f),
                version,
            ),
            ctx_of_queries(qs),
        ) == Some(crate::def::RequestBodyV::BatchV(qs, t, c, f)),
{
    let e = crate::serialize::spec_encode_request_body(
        crate::def::RequestBodyV::BatchV(qs, t, c, f),
        version,
    );
    let sz = crate::serialize::spec_value_size(version);
    assert(sz == crate::grammar::spec_param_size(version));
    let bt = seq![crate::def::spec_batch_type_value(t)];
    let cnt = be2(qs.len() as u16);
    let qe = crate::serialize::spec_encode_queries(qs, sz);
    let tail = be2(crate::def::spec_consistency_value(c)) + seq![f];
    assert(e == bt + cnt + qe + tail);
    assert(e[0] == crate::def::spec_batch_type_value(t));
    assert(crate::def::spec_batch_type_from(crate::def::spec_batch_type_value(t)) == Some(t));
    assert forall|i: int| 0 <= i < 2 implies #[trigger] e.subrange(1, 3)[i] == cnt[i] by {
        assert(e.subrange(1, 3)[i] == e[1 + i]);
    }
    assert(e.subrange(1, 3) =~= cnt);
    lemma_be2_at(e, 1, qs.len() as u16);
    assert forall|i: int| 0 <= i < qe.len() implies #[trigger] e.subrange(
        3,
        3 + qe.len() as int,
    )[i] == qe[i] by {
        assert(e.subrange(3, 3 + qe.len() as int)[i] == e[3 + i]);
    }
    assert(e.subrange(3, 3 + qe.len() as int) =~= qe);
    lemma_queries_roundtrip(e, 3, qs, sz);
    let p1 = 3 + qe.len() as int;
    assert forall|i: int| 0 <= i < 3 implies #[trigger] e.subrange(p1, p1 + 3)[i] == tail[i] by {
        assert(e.subrange(p1, p1 + 3)[i] == e[p1 + i]);
    }
    assert(e.subrange(p1, p1 + 3) =~= tail);
    lemma_body_tail(e, p1, c, f);
    lemma_batch_assemble(e, qs, t, c, f, version, p1);
}

/// An encoded request body reads back as itself, with the body's own type
/// context.
#[verifier::rlimit(100)]
#[verifier::spinoff_prover]
proof fn lemma_body_roundtrip(body: crate::def::RequestBodyV, version: u8)
    requires
        1 <= version <= 3,
        crate::serialize::body_encodable(body, version),
    ensures
        crate::grammar::spec_read_request_body(
            op_of_body(body),
            version,
            crate::serialize::spec_encode_request_body(body, version),
            ctx_of_body(body),
        ) == Some(body),
{
    match body {
        crate::def::RequestBodyV::StartupV(pairs) => {
            lemma_body_startup(pairs, version);
        },
        crate::def::RequestBodyV::CredV(ss) => {
            lemma_body_str_list(ss, version, true);
        },
        crate::def::RequestBodyV::RegisterV(ss) => {
            lemma_body_str_list(ss, version, false);
        },
        crate::def::RequestBodyV::OptionsV => {},
        crate::def::RequestBodyV::PrepareV(s) => {
            lemma_body_prepare(s, version);
        },
        crate::def::RequestBodyV::QueryReqV(s, c, f) => {
            lemma_body_query(s, c, f, version);
        },
        crate::def::RequestBodyV::ExecV(id, vs, c, f) => {
            lemma_body_exec(id, vs, c, f, version);
            assert(ctx_of_body(body) =~= seq![types_of_values(vs)]);
        },
        crate::def::RequestBodyV::BatchV(qs, t, c, f) => {
            lemma_body_batch(qs, t, c, f, version);
            assert(ctx_of_body(body) =~= ctx_of_queries(qs));
        },
    }
}

/// The header of an encoded request reads back as its fields, and the
/// length field delimits exactly the body bytes.
#[verifier::rlimit(100)]
#[verifier::spinoff_prover]
proof fn lemma_request_header_roundtrip(r: crate::def::RequestV)
    requires
        crate::serialize::request_encodable(r),
    ensures
        ({
            let e = crate::serialize::spec_encode_request(r);
            let body = crate::serialize::spec_encode_request_body(r.body, r.version);
            let hl: int = if r.version >= 3 {
                5
            } else {
                4
            };
            crate::grammar::spec_read_frame_header(e, 0, r.version) == Some(
                (
                    (crate::def::CqlFrameHeader {
                        version: r.version,
                        flags: r.flags,
                        stream: r.stream,
                        opcode: crate::def::spec_opcode_request_value(r.opcode),
                    }),
                    hl,
                ),
            ) && can_read(e, hl, 4) && i32_of_u32(u32_at(e, hl)) == body.len() && e.subrange(
                hl + 4,
                hl + 4 + body.len(),
            ) =~= body && e.len() == hl + 4 + body.len()
        }),
{
    let e = crate::serialize::spec_encode_request(r);
    let body = crate::serialize::spec_encode_request_body(r.body, r.version);
    let stream_bytes = crate::serialize::enc_stream(r.stream, r.version);
    let hdr = seq![r.version, r.flags] + stream_bytes + seq![
        crate::def::spec_opcode_request_value(r.opcode),
    ] + be4(body.len() as u32);
    assert(e =~= hdr + body);
    assert(e.subrange(0, e.len() as int) =~= e);
    lemma_split_concat(e, 0, hdr, body);
    let hl: int = if r.version >= 3 {
        5
    } else {
        4
    };
    assert(hdr.len() == hl + 4);
    if r.version >= 3 {
        assert(e.subrange(2, 4) =~= be2(u16_of_i16(r.stream))) by {
            assert(e.subrange(0, hdr.len() as int) =~= hdr);
            assert(e[2] == hdr[2] && e[3] == hdr[3]);
            assert(hdr[2] == be2(u16_of_i16(r.stream))[0]);
            assert(hdr[3] == be2(u16_of_i16(r.stream))[1]);
        }
        lemma_be2_at(e, 2, u16_of_i16(r.stream));
        lemma_signed_carriers(0, 0, 0, r.stream, 0, 0);
    } else {
        assert(e[2] == (u16_of_i16(r.stream) % 256) as u8);
        if r.stream >= 0 {
            assert(crate::grammar::i16_of_u8(e[2]) == r.stream);
        } else {
            let k = r.stream as int + 256;
            assert(u16_of_i16(r.stream) == r.stream as int + 0x1_0000);
            assert(u16_of_i16(r.stream) as int == 256 * 255 + k);
            vstd::arithmetic::div_mod::lemma_mod_multiples_vanish(255, k, 256);
            vstd::arithmetic::div_mod::lemma_small_mod(k as nat, 256);
            assert(u16_of_i16(r.stream) as int % 256 == k);
            assert(crate::grammar::i16_of_u8(e[2]) == r.stream);
        }
    }
    assert(e[hl - 1] == crate::def::spec_opcode_request_value(r.opcode));
    assert forall|i: int| 0 <= i < 4 implies #[trigger] e.subrange(hl, hl + 4)[i] == be4(
        body.len() as u32,
    )[i] by {
        assert(e.subrange(hl, hl + 4)[i] == e[hl + i]);
        assert(e[hl + i] == (hdr + body)[hl + i]);
        assert(hdr[hl + i] == be4(body.len() as u32)[i]);
    }
    assert(e.subrange(hl, hl + 4) =~= be4(body.len() as u32));
    lemma_be4_at(e, hl, body.len() as u32);
    assert(i32_of_u32(body.len() as u32) == body.len());
    assert(e.subrange(hl + 4, hl + 4 + body.len()) =~= body);
}

/// Round trip: decoding an encoded request, for any supported revision,
/// yields the request unchanged. The decoder is handed the declared
/// parameter types of the bound values, which the wire does not carry.
#[verifier::rlimit(100)]
#[verifier::spinoff_prover]
pub proof fn law_request_roundtrip(r: crate::def::RequestV)
    requires
        crate::serialize::request_encodable(r),
    ensures
        crate::grammar::spec_read_request(
            crate::serialize::spec_encode_request(r),
            0,
            r.version,
            ctx_of_body(r.body),
        ) == Some((r, crate::serialize::spec_encode_request(r).len() as int)),
{
    let e = crate::serialize::spec_encode_request(r);
    let body = crate::serialize::spec_encode_request_body(r.body, r.version);
    lemma_request_header_roundtrip(r);
    lemma_body_roundtrip(r.body, r.version);
    assert(crate::def::spec_opcode_request_from(crate::def::spec_opcode_request_value(r.opcode))
        == Some(r.opcode));
    assert(op_of_body(r.body) == r.opcode);
    let hl: int = if r.version >= 3 {
        5
    } else {
        4
    };
    assert(e.len() == hl + 4 + body.len());
}

/// Idempotence: the encoding of a request is a function of the request
/// alone, so encoding twice gives byte-for-byte identical frames. The
/// executable encoder's contract pins its output to this function.
pub proof fn law_encode_idempotent(r1: crate::def::RequestV, r2: crate::def::RequestV)
    requires
        r1 == r2,
    ensures
        crate::serialize::spec_encode_request(r1) == crate::serialize::spec_encode_request(r2),
{
}

/// Length consistency: in every encoded frame, the header's 4-byte body
/// length field holds exactly the number of bytes that follow the header.
pub proof fn law_frame_length(r: crate::def::RequestV)
    requires
        crate::serialize::request_encodable(r),
    ensures
        ({
            let e = crate::serialize::spec_encode_request(r);
            let hl: int = if r.version >= 3 {
                5
            } else {
                4
            };
            u32_at(e, hl) as int == e.len() - hl - 4
        }),
{
    let e = crate::serialize::spec_encode_request(r);
    let body = crate::serialize::spec_encode_request_body(r.body, r.version);
    let stream_bytes = crate::serialize::enc_stream(r.stream, r.version);
    let hdr = seq![r.version, r.flags] + stream_bytes + seq![
        crate::def::spec_opcode_request_value(r.opcode),
    ] + be4(body.len() as u32);
    assert(e =~= hdr + body);
    let hl: int = if r.version >= 3 {
        5
    } else {
        4
    };
    assert(hdr.len() == hl + 4);
    assert forall|i: int| 0 <= i < 4 implies #[trigger] e.subrange(hl, hl + 4)[i] == be4(
        body.len() as u32,
    )[i] by {
        assert(e.subrange(hl, hl + 4)[i] == e[hl + i]);
        assert(e[hl + i] == (hdr + body)[hl + i]);
        assert(hdr[hl + i] == be4(body.len() as u32)[i]);
    }
    assert(e.subrange(hl, hl + 4) =~= be4(body.len() as u32));
    lemma_be4_at(e, hl, body.len() as u32);
}

} // verus!
