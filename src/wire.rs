//! The wire format: big-endian scalars, length-prefixed key/value headers, and
//! stream framing.

use vstd::prelude::*;
use byteorder::ByteOrder;

verus! {

broadcast use vstd::array::group_array_axioms;

/// The value of two bytes, most significant first.
pub open spec fn be_u16_value(b0: u8, b1: u8) -> u16 {
    ((b0 as u16) << 8u16) | (b1 as u16)
}

/// The value of four bytes, most significant first.
pub open spec fn be_u32_value(b0: u8, b1: u8, b2: u8, b3: u8) -> u32 {
    ((b0 as u32) << 24u32) | ((b1 as u32) << 16u32) | ((b2 as u32) << 8u32) | (b3 as u32)
}

/// The value of the first four bytes of `b`, most significant first.
pub open spec fn be_u32_at(b: Seq<u8>, i: int) -> u32 {
    be_u32_value(b[i], b[i + 1], b[i + 2], b[i + 3])
}

pub open spec fn be_u16_bytes(n: u16) -> Seq<u8> {
    seq![(n >> 8u16) as u8, (n & 0xffu16) as u8]
}

pub open spec fn be_u32_bytes(n: u32) -> Seq<u8> {
    seq![
        (n >> 24u32) as u8,
        ((n >> 16u32) & 0xffu32) as u8,
        ((n >> 8u32) & 0xffu32) as u8,
        (n & 0xffu32) as u8,
    ]
}

/// Relies on byteorder's `BigEndian::read_u16`: the first two bytes, most
/// significant first.
#[verifier::external_body]
fn read_u16_be(b: [u8; 2]) -> (r: u16)
    ensures
        r == be_u16_value(b@[0], b@[1]),
{
    byteorder::BigEndian::read_u16(&b)
}

/// Relies on byteorder's `BigEndian::read_u32`: the first four bytes, most
/// significant first.
#[verifier::external_body]
fn read_u32_be(b: [u8; 4]) -> (r: u32)
    ensures
        r == be_u32_value(b@[0], b@[1], b@[2], b@[3]),
{
    byteorder::BigEndian::read_u32(&b)
}

/// Relies on byteorder's `BigEndian::write_u16`: the two bytes of `n`, most
/// significant first.
#[verifier::external_body]
fn write_u16_be(n: u16) -> (r: [u8; 2])
    ensures
        r@ == be_u16_bytes(n),
{
    let mut b = [0u8; 2];
    byteorder::BigEndian::write_u16(&mut b, n);
    b
}

/// Relies on byteorder's `BigEndian::write_u32`: the four bytes of `n`, most
/// significant first.
#[verifier::external_body]
fn write_u32_be(n: u32) -> (r: [u8; 4])
    ensures
        r@ == be_u32_bytes(n),
{
    let mut b = [0u8; 4];
    byteorder::BigEndian::write_u32(&mut b, n);
    b
}

/// Writing a number and reading it back gives the number; reading four bytes
/// and writing the number back gives the bytes.
pub proof fn lemma_be_u32_round_trip(n: u32, b0: u8, b1: u8, b2: u8, b3: u8)
    ensures
        be_u32_value(be_u32_bytes(n)[0], be_u32_bytes(n)[1], be_u32_bytes(n)[2], be_u32_bytes(n)[3])
            == n,
        be_u32_bytes(be_u32_value(b0, b1, b2, b3)) == seq![b0, b1, b2, b3],
{
    assert(((((n >> 24u32) as u8) as u32) << 24u32) | (((((n >> 16u32) & 0xffu32) as u8) as u32)
        << 16u32) | (((((n >> 8u32) & 0xffu32) as u8) as u32) << 8u32) | (((n & 0xffu32) as u8)
        as u32) == n) by (bit_vector);
    let v = be_u32_value(b0, b1, b2, b3);
    assert((v >> 24u32) as u8 == b0 && ((v >> 16u32) & 0xffu32) as u8 == b1 && ((v >> 8u32)
        & 0xffu32) as u8 == b2 && (v & 0xffu32) as u8 == b3) by (bit_vector)
        requires
            v == ((b0 as u32) << 24u32) | ((b1 as u32) << 16u32) | ((b2 as u32) << 8u32) | (
            b3 as u32),
    ;
    assert(be_u32_bytes(v) =~= seq![b0, b1, b2, b3]);
}


/// One header entry: the key's length, the key, the value's length, the
/// value. Lengths are four bytes, most significant first.
pub open spec fn header_bytes(key: Seq<u8>, val: Seq<u8>) -> Seq<u8> {
    be_u32_bytes(key.len() as u32) + key + be_u32_bytes(val.len() as u32) + val
}

/// A block of header entries, one after the other.
pub open spec fn headers_bytes(h: Seq<(Seq<u8>, Seq<u8>)>) -> Seq<u8>
    decreases h.len(),
{
    if h.len() == 0 {
        Seq::empty()
    } else {
        header_bytes(h[0].0, h[0].1) + headers_bytes(h.drop_first())
    }
}

/// The entries of a header block, read until its bytes are exhausted; `None`
/// where an entry runs past the end.
pub open spec fn parse_headers(b: Seq<u8>) -> Option<Seq<(Seq<u8>, Seq<u8>)>>
    decreases b.len(),
{
    if b.len() == 0 {
        Some(Seq::empty())
    } else if b.len() < 4 {
        None
    } else {
        let kl = be_u32_at(b, 0) as int;
        if b.len() < 8 + kl {
            None
        } else {
            let vl = be_u32_at(b, 4 + kl) as int;
            if b.len() < 8 + kl + vl {
                None
            } else {
                let key = b.subrange(4, 4 + kl);
                let val = b.subrange(8 + kl, 8 + kl + vl);
                match parse_headers(b.subrange(8 + kl + vl, b.len() as int)) {
                    Some(rest) => Some(seq![(key, val)] + rest),
                    None => None,
                }
            }
        }
    }
}

/// The views of decoded entries.
pub open spec fn entries_view(v: Seq<(Vec<u8>, Vec<u8>)>) -> Seq<(Seq<u8>, Seq<u8>)> {
    v.map_values(|e: (Vec<u8>, Vec<u8>)| (e.0@, e.1@))
}

/// Appends the bytes of `b`.
fn append_bytes(buf: &mut Vec<u8>, b: &[u8])
    ensures
        final(buf)@ == old(buf)@ + b@,
{
    let mut i: usize = 0;
    while i < b.len()
        invariant
            i <= b@.len(),
            buf@ == old(buf)@ + b@.subrange(0, i as int),
        decreases b@.len() - i,
    {
        buf.push(b[i]);
        i = i + 1;
        proof {
            assert(b@.subrange(0, i as int) =~= b@.subrange(0, i - 1) + seq![b@[i - 1]]);
        }
    }
    proof {
        assert(b@.subrange(0, b@.len() as int) =~= b@);
    }
}

/// Appends one header entry for `key` and `val`.
pub fn encode_header(buf: &mut Vec<u8>, key: &[u8], val: &[u8])
    requires
        key@.len() <= u32::MAX,
        val@.len() <= u32::MAX,
    ensures
        final(buf)@ == old(buf)@ + header_bytes(key@, val@),
{
    let kl = write_u32_be(key.len() as u32);
    append_bytes(buf, &kl);
    append_bytes(buf, key);
    let vl = write_u32_be(val.len() as u32);
    append_bytes(buf, &vl);
    append_bytes(buf, val);
    proof {
        assert(buf@ =~= old(buf)@ + header_bytes(key@, val@));
    }
}

/// Decodes a header block: every entry, in order, until the bytes are
/// exhausted. `None` where an entry runs past the end.
pub fn decode_headers(b: &[u8]) -> (r: Option<Vec<(Vec<u8>, Vec<u8>)>>)
    ensures
        match r {
            Some(v) => parse_headers(b@) == Some(entries_view(v@)),
            None => parse_headers(b@) is None,
        },
{
    let mut out: Vec<(Vec<u8>, Vec<u8>)> = Vec::new();
    let mut pos: usize = 0;
    let len = b.len();
    proof {
        assert(b@.subrange(0, len as int) =~= b@);
        assert(entries_view(out@) =~= Seq::empty());
        match parse_headers(b@) {
            Some(all) => {
                assert(entries_view(out@) + all =~= all);
            },
            None => {},
        }
    }
    while pos < len
        invariant
            len == b@.len(),
            pos <= len,
            parse_headers(b@) == match parse_headers(b@.subrange(pos as int, len as int)) {
                Some(rest) => Some(entries_view(out@) + rest),
                None => None::<Seq<(Seq<u8>, Seq<u8>)>>,
            },
        decreases len - pos,
    {
        let ghost rem = b@.subrange(pos as int, len as int);
        if len - pos < 4 {
            return None;
        }
        let kl = u32_at(b, pos) as usize;
        proof {
            assert(be_u32_at(rem, 0) == be_u32_at(b@, pos as int));
        }
        if len - pos - 4 < kl || len - pos - 4 - kl < 4 {
            return None;
        }
        let vl = u32_at(b, pos + 4 + kl) as usize;
        proof {
            assert(be_u32_at(rem, 4 + kl) == be_u32_at(b@, pos + 4 + kl));
        }
        if len - pos - 8 - kl < vl {
            return None;
        }
        let key = vstd::slice::slice_to_vec(vstd::slice::slice_subrange(b, pos + 4, pos + 4 + kl));
        let val = vstd::slice::slice_to_vec(
            vstd::slice::slice_subrange(b, pos + 8 + kl, pos + 8 + kl + vl),
        );
        let ghost before = out@;
        out.push((key, val));
        let next = pos + 8 + kl + vl;
        proof {
            assert(key@ =~= rem.subrange(4, 4 + kl));
            assert(val@ =~= rem.subrange(8 + kl, 8 + kl + vl));
            assert(rem.subrange(8 + kl + vl, rem.len() as int) =~= b@.subrange(
                next as int,
                len as int,
            ));
            assert(entries_view(out@) =~= entries_view(before) + seq![(key@, val@)]);
            match parse_headers(b@.subrange(next as int, len as int)) {
                Some(rest) => {
                    assert(entries_view(out@) + rest =~= entries_view(before) + (seq![
                        (key@, val@),
                    ] + rest));
                },
                None => {},
            }
        }
        pos = next;
    }
    proof {
        assert(b@.subrange(pos as int, len as int) =~= Seq::<u8>::empty());
        assert(entries_view(out@) + Seq::empty() =~= entries_view(out@));
    }
    Some(out)
}


/// The two bytes of `n`, most significant first.
pub fn u16_bytes(n: u16) -> (r: [u8; 2])
    ensures
        r@ == be_u16_bytes(n),
{
    write_u16_be(n)
}

/// The four bytes of `n`, most significant first.
pub fn u32_bytes(n: u32) -> (r: [u8; 4])
    ensures
        r@ == be_u32_bytes(n),
{
    write_u32_be(n)
}

/// The number that two bytes of `b` from `i` on hold, most significant first.
pub fn u16_at(b: &[u8], i: usize) -> (r: u16)
    requires
        i + 2 <= b@.len(),
    ensures
        r == be_u16_value(b@[i as int], b@[i + 1]),
{
    read_u16_be([b[i], b[i + 1]])
}

/// The number that four bytes of `b` from `i` on hold, most significant first.
pub fn u32_at(b: &[u8], i: usize) -> (r: u32)
    requires
        i + 4 <= b@.len(),
    ensures
        r == be_u32_at(b@, i as int),
{
    read_u32_be([b[i], b[i + 1], b[i + 2], b[i + 3]])
}

/// A message framed for a byte stream: its length in four bytes, most
/// significant first, then the message itself.
pub fn stream_frame(msg: &[u8]) -> (r: Vec<u8>)
    requires
        msg@.len() <= u32::MAX,
    ensures
        r@ == be_u32_bytes(msg@.len() as u32) + msg@,
{
    let mut out: Vec<u8> = Vec::new();
    let len = write_u32_be(msg.len() as u32);
    append_bytes(&mut out, &len);
    append_bytes(&mut out, msg);
    out
}

/// The length of the message that the four-byte prefix of a stream frame
/// announces.
pub fn frame_length(prefix: [u8; 4]) -> (r: u32)
    ensures
        r == be_u32_value(prefix@[0], prefix@[1], prefix@[2], prefix@[3]),
{
    read_u32_be(prefix)
}

/// The whole part of the IEEE-754 single-precision number with these bits, as
/// a pixel count: `None` for a negative number, an infinity, a NaN, or a value
/// of `2^31` or more.
pub open spec fn whole_pixels(bits: u32) -> Option<i32> {
    let exp = (bits >> 23u32) & 0xffu32;
    let sig = (bits & 0x7f_ffffu32) | 0x80_0000u32;
    if bits >> 31u32 != 0 || exp == 0xffu32 {
        None
    } else if exp < 127 {
        Some(0i32)
    } else if exp <= 150 {
        Some((sig >> ((150 - exp) as u32)) as i32)
    } else if exp <= 157 {
        Some((sig << ((exp - 150) as u32)) as i32)
    } else {
        None
    }
}

/// Reads a pixel count sent as a single-precision number.
pub fn pixels_from_bits(bits: u32) -> (r: Option<i32>)
    ensures
        r == whole_pixels(bits),
{
    let exp = (bits >> 23) & 0xff;
    let sig = (bits & 0x7f_ffff) | 0x80_0000;
    if bits >> 31 != 0 || exp == 0xff {
        None
    } else if exp < 127 {
        Some(0)
    } else if exp <= 150 {
        Some((sig >> (150 - exp)) as i32)
    } else if exp <= 157 {
        Some((sig << (exp - 150)) as i32)
    } else {
        None
    }
}

/// Every key and value of `h` has a length that fits the four-byte prefix.
pub open spec fn entries_fit(h: Seq<(Seq<u8>, Seq<u8>)>) -> bool {
    forall|i: int| 0 <= i < h.len() ==> #[trigger] h[i].0.len() <= u32::MAX && h[i].1.len() <= u32::MAX
}

/// Decoding one entry in front of other bytes gives that entry, followed by
/// what the other bytes decode to.
proof fn lemma_parse_entry(k: Seq<u8>, v: Seq<u8>, rest: Seq<u8>)
    requires
        k.len() <= u32::MAX,
        v.len() <= u32::MAX,
    ensures
        parse_headers(header_bytes(k, v) + rest) == match parse_headers(rest) {
            Some(r) => Some(seq![(k, v)] + r),
            None => None,
        },
{
    let b = header_bytes(k, v) + rest;
    let kl = k.len() as int;
    let vl = v.len() as int;
    let kb = be_u32_bytes(k.len() as u32);
    let vb = be_u32_bytes(v.len() as u32);
    lemma_be_u32_round_trip(k.len() as u32, 0, 0, 0, 0);
    lemma_be_u32_round_trip(v.len() as u32, 0, 0, 0, 0);
    assert(b[0] == kb[0] && b[1] == kb[1] && b[2] == kb[2] && b[3] == kb[3]);
    assert(be_u32_at(b, 0) == kl);
    assert(b[4 + kl] == vb[0] && b[5 + kl] == vb[1] && b[6 + kl] == vb[2] && b[7 + kl] == vb[3]);
    assert(be_u32_at(b, 4 + kl) == vl);
    assert(b.subrange(4, 4 + kl) =~= k);
    assert(b.subrange(8 + kl, 8 + kl + vl) =~= v);
    assert(b.subrange(8 + kl + vl, b.len() as int) =~= rest);
}

/// Encoding header entries and decoding the bytes gives back the same entries,
/// in order, and the decoding ends exactly where the encoded block ends.
#[verifier::rlimit(30)]
pub proof fn lemma_headers_round_trip(h: Seq<(Seq<u8>, Seq<u8>)>)
    requires
        entries_fit(h),
    ensures
        parse_headers(headers_bytes(h)) == Some(h),
    decreases h.len(),
{
    if h.len() == 0 {
        assert(h =~= Seq::empty());
    } else {
        let t = h.drop_first();
        assert(entries_fit(t)) by {
            assert forall|i: int| 0 <= i < t.len() implies #[trigger] t[i].0.len() <= u32::MAX
                && t[i].1.len() <= u32::MAX by {
                assert(t[i] == h[i + 1]);
            }
        }
        assert(h[0].0.len() <= u32::MAX && h[0].1.len() <= u32::MAX);
        lemma_headers_round_trip(t);
        assert(headers_bytes(h) == header_bytes(h[0].0, h[0].1) + headers_bytes(t));
        lemma_parse_entry(h[0].0, h[0].1, headers_bytes(t));
        assert(seq![(h[0].0, h[0].1)] + t =~= h);
    }
}

} // verus!
