//! Big-endian integers and the byte encoding of credential entries.

use vstd::prelude::*;
use vstd::utf8::*;

use crate::primitives::string_from_utf8;

verus! {

/// The eight big-endian bytes of `n`.
pub open spec fn u64_be(n: u64) -> Seq<u8> {
    seq![
        (n >> 56) as u8, (n >> 48) as u8, (n >> 40) as u8, (n >> 32) as u8,
        (n >> 24) as u8, (n >> 16) as u8, (n >> 8) as u8, n as u8,
    ]
}

/// The four big-endian bytes of `n`.
pub open spec fn u32_be(n: u32) -> Seq<u8> {
    seq![(n >> 24) as u8, (n >> 16) as u8, (n >> 8) as u8, n as u8]
}

/// The number whose big-endian bytes open `b`.
pub open spec fn u64_from_be(b: Seq<u8>) -> u64 {
    (b[0] as u64) << 56 | (b[1] as u64) << 48 | (b[2] as u64) << 40 | (b[3] as u64) << 32
        | (b[4] as u64) << 24 | (b[5] as u64) << 16 | (b[6] as u64) << 8 | (b[7] as u64)
}

pub open spec fn u32_from_be(b: Seq<u8>) -> u32 {
    (b[0] as u32) << 24 | (b[1] as u32) << 16 | (b[2] as u32) << 8 | (b[3] as u32)
}

pub proof fn lemma_u64_be_round_trip(n: u64)
    ensures
        u64_from_be(u64_be(n)) == n,
        u64_be(n).len() == 8,
{
    let b = u64_be(n);
    assert(((((n >> 56) as u8) as u64) << 56 | (((n >> 48) as u8) as u64) << 48
        | (((n >> 40) as u8) as u64) << 40 | (((n >> 32) as u8) as u64) << 32
        | (((n >> 24) as u8) as u64) << 24 | (((n >> 16) as u8) as u64) << 16
        | (((n >> 8) as u8) as u64) << 8 | ((n as u8) as u64)) == n) by (bit_vector);
}

pub proof fn lemma_u32_be_round_trip(n: u32)
    ensures
        u32_from_be(u32_be(n)) == n,
        u32_be(n).len() == 4,
{
    assert(((((n >> 24) as u8) as u32) << 24 | (((n >> 16) as u8) as u32) << 16
        | (((n >> 8) as u8) as u32) << 8 | ((n as u8) as u32)) == n) by (bit_vector);
}

/// Appends the big-endian bytes of `n`.
pub fn push_u64_be(out: &mut Vec<u8>, n: u64)
    ensures
        final(out)@ == old(out)@ + u64_be(n),
{
    out.push((n >> 56) as u8);
    out.push((n >> 48) as u8);
    out.push((n >> 40) as u8);
    out.push((n >> 32) as u8);
    out.push((n >> 24) as u8);
    out.push((n >> 16) as u8);
    out.push((n >> 8) as u8);
    out.push(n as u8);
    assert(out@ =~= old(out)@ + u64_be(n));
}

/// Appends the big-endian bytes of `n`.
pub fn push_u32_be(out: &mut Vec<u8>, n: u32)
    ensures
        final(out)@ == old(out)@ + u32_be(n),
{
    out.push((n >> 24) as u8);
    out.push((n >> 16) as u8);
    out.push((n >> 8) as u8);
    out.push(n as u8);
    assert(out@ =~= old(out)@ + u32_be(n));
}

/// Reads the big-endian number at `pos`.
pub fn read_u64_be(data: &[u8], pos: usize) -> (r: u64)
    requires
        pos + 8 <= data@.len(),
    ensures
        r == u64_from_be(data@.subrange(pos as int, pos + 8)),
{
    (data[pos] as u64) << 56 | (data[pos + 1] as u64) << 48 | (data[pos + 2] as u64) << 40
        | (data[pos + 3] as u64) << 32 | (data[pos + 4] as u64) << 24 | (data[pos + 5] as u64)
        << 16 | (data[pos + 6] as u64) << 8 | (data[pos + 7] as u64)
}

/// Reads the big-endian number at `pos`.
pub fn read_u32_be(data: &[u8], pos: usize) -> (r: u32)
    requires
        pos + 4 <= data@.len(),
    ensures
        r == u32_from_be(data@.subrange(pos as int, pos + 4)),
{
    (data[pos] as u32) << 24 | (data[pos + 1] as u32) << 16 | (data[pos + 2] as u32) << 8
        | (data[pos + 3] as u32)
}

/// A string as its byte length, then its UTF-8 bytes.
pub open spec fn field_bytes(s: Seq<char>) -> Seq<u8> {
    u64_be(encode_utf8(s).len() as u64) + encode_utf8(s)
}

/// Entries as the fields of their name and secret, one entry after another.
pub open spec fn entries_bytes(es: Seq<(Seq<char>, Seq<char>)>) -> Seq<u8>
    decreases es.len(),
{
    if es.len() == 0 {
        Seq::empty()
    } else {
        field_bytes(es[0].0) + field_bytes(es[0].1) + entries_bytes(es.drop_first())
    }
}

/// The string field at the front of `d`, and what follows it.
pub open spec fn parse_field(d: Seq<u8>) -> Option<(Seq<char>, Seq<u8>)> {
    if d.len() < 8 {
        None
    } else {
        let n = u64_from_be(d.take(8)) as int;
        if d.len() - 8 < n {
            None
        } else if !valid_utf8(d.subrange(8, 8 + n)) {
            None
        } else {
            Some((decode_utf8(d.subrange(8, 8 + n)), d.skip(8 + n)))
        }
    }
}

/// The entries that `d` holds, if it is made of whole entries.
pub open spec fn parse_entries(d: Seq<u8>) -> Option<Seq<(Seq<char>, Seq<char>)>>
    decreases d.len(),
{
    if d.len() == 0 {
        Some(Seq::empty())
    } else if d.len() < 8 {
        None
    } else {
        match parse_field(d) {
            None => None,
            Some((name, rest)) => match parse_field(rest) {
                None => None,
                Some((secret, rest2)) => {
                    if rest2.len() < d.len() {
                        match parse_entries(rest2) {
                            None => None,
                            Some(es) => Some(seq![(name, secret)] + es),
                        }
                    } else {
                        None
                    }
                },
            },
        }
    }
}

pub proof fn lemma_parse_field(s: Seq<char>, tail: Seq<u8>)
    requires
        encode_utf8(s).len() <= u64::MAX,
    ensures
        parse_field(field_bytes(s) + tail) == Some((s, tail)),
{
    let b = encode_utf8(s);
    let d = field_bytes(s) + tail;
    lemma_u64_be_round_trip(b.len() as u64);
    assert(d.take(8) =~= u64_be(b.len() as u64));
    assert(d.subrange(8, 8 + b.len() as int) =~= b);
    assert(d.skip(8 + b.len() as int) =~= tail);
    encode_utf8_valid_utf8(s);
    encode_utf8_decode_utf8(s);
}

/// Decoding the encoding of entries gives the entries back.
pub proof fn lemma_entries_round_trip(es: Seq<(Seq<char>, Seq<char>)>)
    requires
        forall|i: int| 0 <= i < es.len() ==> encode_utf8(#[trigger] es[i].0).len() <= u64::MAX
            && encode_utf8(es[i].1).len() <= u64::MAX,
    ensures
        parse_entries(entries_bytes(es)) == Some(es),
    decreases es.len(),
{
    if es.len() > 0 {
        let rest = es.drop_first();
        assert forall|i: int| 0 <= i < rest.len() implies encode_utf8(#[trigger] rest[i].0).len()
            <= u64::MAX && encode_utf8(rest[i].1).len() <= u64::MAX by {
            assert(rest[i] == es[i + 1]);
        }
        lemma_entries_round_trip(rest);
        let d = entries_bytes(es);
        let tail = entries_bytes(rest);
        assert(d =~= field_bytes(es[0].0) + (field_bytes(es[0].1) + tail));
        lemma_parse_field(es[0].0, field_bytes(es[0].1) + tail);
        lemma_parse_field(es[0].1, tail);
        assert(seq![(es[0].0, es[0].1)] + rest =~= es);
    }
}

/// Encoding entries one list after another is encoding the joined list.
pub proof fn lemma_entries_bytes_append(a: Seq<(Seq<char>, Seq<char>)>, b: Seq<(Seq<char>, Seq<char>)>)
    ensures
        entries_bytes(a + b) == entries_bytes(a) + entries_bytes(b),
    decreases a.len(),
{
    if a.len() == 0 {
        assert(a + b =~= b);
    } else {
        lemma_entries_bytes_append(a.drop_first(), b);
        assert((a + b).drop_first() =~= a.drop_first() + b);
        assert((a + b)[0] == a[0]);
    }
}

/// Reads the string field at `pos`: its end, and the string.
pub fn read_field(d: &[u8], pos: usize) -> (r: Option<(String, usize)>)
    requires
        pos <= d@.len(),
    ensures
        match parse_field(d@.skip(pos as int)) {
            None => r is None,
            Some((s, tail)) => match r {
                Some((t, end)) => t@ == s && end <= d@.len() && tail == d@.skip(end as int),
                None => false,
            },
        },
{
    let ghost rest = d@.skip(pos as int);
    if d.len() - pos < 8 {
        return None;
    }
    let n = read_u64_be(d, pos);
    assert(d@.subrange(pos as int, pos + 8) =~= rest.take(8));
    if ((d.len() - pos - 8) as u64) < n {
        return None;
    }
    let end = pos + 8 + n as usize;
    let bytes = vstd::slice::slice_to_vec(vstd::slice::slice_subrange(d, pos + 8, end));
    assert(bytes@ =~= rest.subrange(8, 8 + n as int));
    match string_from_utf8(bytes) {
        None => None,
        Some(s) => {
            assert(rest.skip(8 + n as int) =~= d@.skip(end as int));
            Some((s, end))
        },
    }
}

} // verus!
