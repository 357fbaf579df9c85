//! Minimal STUN client codec (RFC 5389): Binding requests, and the
//! MAPPED-ADDRESS / XOR-MAPPED-ADDRESS attributes of Binding responses.

use std::collections::hash_map::RandomState;
use std::hash::BuildHasher;

use vstd::prelude::*;
use vstd::slice::slice_subrange;

use crate::net::{IpAddr, SocketAddr};
use crate::error::StunError;

verus! {

pub const MAGIC_COOKIE: u32 = 0x2112_A442;
pub const HEADER_SIZE: usize = 20;
pub const MAX_BODY_SIZE: usize = 2048;
pub const TX_ID_SIZE: usize = 12;

pub const BINDING_REQUEST: u16 = 0x0001;

pub const ATTR_MAPPED_ADDRESS: u16 = 0x0001;
pub const ATTR_XOR_MAPPED_ADDRESS: u16 = 0x0020;
pub const FAMILY_IPV4: u8 = 0x01;
pub const FAMILY_IPV6: u8 = 0x02;

/// The port mask of XOR-MAPPED-ADDRESS: the high 16 bits of the magic cookie.
pub const PORT_MASK: u16 = 0x2112;

/// Big-endian unsigned value of a byte sequence.
pub open spec fn be_uint(s: Seq<u8>) -> nat
    decreases s.len(),
{
    if s.len() == 0 {
        0
    } else {
        be_uint(s.drop_last()) * 256 + s.last() as nat
    }
}

/// 256 to the power `n`.
pub open spec fn byte_range(n: nat) -> nat
    decreases n,
{
    if n == 0 {
        1
    } else {
        256 * byte_range((n - 1) as nat)
    }
}

/// The `n` big-endian bytes of `x` (its low `n` bytes when it does not fit).
pub open spec fn be_bytes(x: nat, n: nat) -> Seq<u8>
    decreases n,
{
    if n == 0 {
        Seq::empty()
    } else {
        be_bytes(x / 256, (n - 1) as nat).push((x % 256) as u8)
    }
}

/// The big-endian 16-bit value at `i`.
pub open spec fn be16(s: Seq<u8>, i: int) -> u16 {
    (s[i] as int * 256 + s[i + 1] as int) as u16
}

/// The magic cookie in network order.
pub open spec fn cookie_bytes() -> Seq<u8> {
    seq![0x21u8, 0x12u8, 0xA4u8, 0x42u8]
}

/// A Binding Request with no attributes, labelled by `tx`.
pub open spec fn request_bytes(tx: Seq<u8>) -> Seq<u8> {
    seq![0x00u8, 0x01u8, 0x00u8, 0x00u8] + cookie_bytes() + tx
}

/// Rounds an attribute length up to the 4-byte boundary.
pub open spec fn padded(len: nat) -> nat {
    if len % 4 == 0 {
        len
    } else {
        (len + (4 - len % 4)) as nat
    }
}

/// Value of the first attribute of type `ty` in the attribute list of `body`
/// that starts at `off`. The walk ends at the end of the body, or at an
/// attribute whose value runs past the end of the body.
pub open spec fn first_attr(body: Seq<u8>, off: nat, ty: u16) -> Option<Seq<u8>>
    decreases body.len() - off,
{
    if off + 4 > body.len() {
        None
    } else {
        let len = be16(body, off + 2int) as nat;
        if off + 4 + len > body.len() {
            None
        } else if be16(body, off as int) == ty {
            Some(body.subrange(off + 4int, off + 4int + len))
        } else if off + 4 + padded(len) > body.len() {
            None
        } else {
            first_attr(body, off + 4 + padded(len), ty)
        }
    }
}

/// The address in an XOR-MAPPED-ADDRESS value, for transaction `tx`.
pub open spec fn spec_xor_mapped(v: Seq<u8>, tx: Seq<u8>) -> Result<SocketAddr, StunError> {
    if v.len() < 8 {
        Err(StunError::Malformed)
    } else {
        let port = be16(v, 2) ^ PORT_MASK;
        if v[1] == FAMILY_IPV4 {
            Ok(SocketAddr { ip: IpAddr::V4((be_uint(v.subrange(4, 8)) as u32) ^ MAGIC_COOKIE), port })
        } else if v[1] == FAMILY_IPV6 && v.len() >= 20 {
            let key = be_uint(cookie_bytes() + tx) as u128;
            Ok(SocketAddr { ip: IpAddr::V6((be_uint(v.subrange(4, 20)) as u128) ^ key), port })
        } else {
            Err(StunError::Malformed)
        }
    }
}

/// The address in a MAPPED-ADDRESS value.
pub open spec fn spec_mapped(v: Seq<u8>) -> Result<SocketAddr, StunError> {
    if v.len() < 8 {
        Err(StunError::Malformed)
    } else {
        let port = be16(v, 2);
        if v[1] == FAMILY_IPV4 {
            Ok(SocketAddr { ip: IpAddr::V4(be_uint(v.subrange(4, 8)) as u32), port })
        } else if v[1] == FAMILY_IPV6 && v.len() >= 20 {
            Ok(SocketAddr { ip: IpAddr::V6(be_uint(v.subrange(4, 20)) as u128), port })
        } else {
            Err(StunError::Malformed)
        }
    }
}

/// The mapped address that a response body carries: XOR-MAPPED-ADDRESS if
/// present, else MAPPED-ADDRESS, else none (malformed).
pub open spec fn spec_body_address(body: Seq<u8>, tx: Seq<u8>) -> Result<SocketAddr, StunError> {
    match first_attr(body, 0, ATTR_XOR_MAPPED_ADDRESS) {
        Some(v) => spec_xor_mapped(v, tx),
        None => match first_attr(body, 0, ATTR_MAPPED_ADDRESS) {
            Some(v) => spec_mapped(v),
            None => Err(StunError::Malformed),
        },
    }
}

/// The outcome of parsing the STUN response `data` to the request labelled `tx`.
pub open spec fn spec_parse_response(data: Seq<u8>, tx: Seq<u8>) -> Result<SocketAddr, StunError> {
    if data.len() < HEADER_SIZE {
        Err(StunError::Malformed)
    } else if data.subrange(8, 20) != tx {
        Err(StunError::TransactionIdMismatch)
    } else {
        let body_len = be16(data, 2) as int;
        if HEADER_SIZE + body_len > data.len() {
            Err(StunError::Malformed)
        } else {
            spec_body_address(data.subrange(20, 20 + body_len), tx)
        }
    }
}

proof fn lemma_be_uint_bound(s: Seq<u8>)
    ensures
        be_uint(s) < byte_range(s.len()),
    decreases s.len(),
{
    if s.len() > 0 {
        lemma_be_uint_bound(s.drop_last());
        let a = be_uint(s.drop_last());
        let b = byte_range((s.len() - 1) as nat);
        let c = s.last() as nat;
        assert(a * 256 + c < 256 * b) by (nonlinear_arith)
            requires
                a < b,
                c < 256,
        ;
    }
}

proof fn lemma_byte_range_16()
    ensures
        byte_range(4) == 0x1_0000_0000,
        byte_range(12) == 0x1_0000_0000_0000_0000_0000_0000,
        byte_range(16) == 0x1_0000_0000_0000_0000_0000_0000_0000_0000,
{
    reveal_with_fuel(byte_range, 17);
}

/// Reads `n` bytes of `s` from `start` as a big-endian number.
fn read_be(s: &[u8], start: usize, n: usize) -> (r: u128)
    requires
        n <= 16,
        start + n <= s@.len(),
    ensures
        r as nat == be_uint(s@.subrange(start as int, start + n)),
{
    let total = s.len();
    let mut acc: u128 = 0;
    let mut i: usize = 0;
    proof {
        lemma_byte_range_16();
        assert(s@.subrange(start as int, start as int) =~= Seq::<u8>::empty());
    }
    while i < n
        invariant
            i <= n <= 16,
            start + n <= s@.len() == total,
            acc as nat == be_uint(s@.subrange(start as int, start + i)),
            byte_range(16) == 0x1_0000_0000_0000_0000_0000_0000_0000_0000,
        decreases n - i,
    {
        let ghost prefix = s@.subrange(start as int, start + i);
        let ghost next = s@.subrange(start as int, start + i + 1);
        proof {
            lemma_be_uint_bound(next);
            assert(next.drop_last() =~= prefix);
            lemma_byte_range_mono(next.len(), 16);
            assert(next.last() == s@[start + i]);
            assert(be_uint(next) == be_uint(prefix) * 256 + s@[start + i] as nat);
            assert(next.len() == i + 1);
            assert(be_uint(next) < 0x1_0000_0000_0000_0000_0000_0000_0000_0000);
        }
        acc = acc * 256 + s[start + i] as u128;
        i = i + 1;
    }
    acc
}

proof fn lemma_byte_range_mono(a: nat, b: nat)
    requires
        a <= b,
    ensures
        byte_range(a) <= byte_range(b),
    decreases b,
{
    if a < b {
        lemma_byte_range_mono(a, (b - 1) as nat);
    }
}

/// Reads the big-endian 16-bit value at `i`.
fn read_u16(s: &[u8], i: usize) -> (r: u16)
    requires
        i + 2 <= s@.len(),
    ensures
        r == be16(s@, i as int),
{
    (s[i] as u16) * 256 + (s[i + 1] as u16)
}

/// The 16 bytes that an IPv6 XOR-MAPPED-ADDRESS is masked with.
pub open spec fn ipv6_key(tx: Seq<u8>) -> Seq<u8> {
    cookie_bytes() + tx
}

/// The value of an XOR-MAPPED-ADDRESS attribute that carries `a`, for transaction `tx`.
pub open spec fn xor_mapped_bytes(a: SocketAddr, tx: Seq<u8>) -> Seq<u8> {
    let xport = (a.port ^ PORT_MASK) as nat;
    match a.ip {
        IpAddr::V4(ip) => seq![0u8, FAMILY_IPV4] + be_bytes(xport, 2) + be_bytes(
            (ip ^ MAGIC_COOKIE) as nat,
            4,
        ),
        IpAddr::V6(ip) => seq![0u8, FAMILY_IPV6] + be_bytes(xport, 2) + be_bytes(
            (ip ^ (be_uint(ipv6_key(tx)) as u128)) as nat,
            16,
        ),
    }
}

/// The fields of a STUN message header.
#[derive(Clone, Copy, Debug)]
pub struct StunHeader {
    pub msg_type: u16,
    pub length: u16,
    pub cookie: u32,
    pub tx_id: [u8; 12],
}

/// Relies on std's `RandomState::new`: a state keyed afresh with random
/// keys. Nothing is promised of it.
#[verifier::external_body]
fn new_random_state() -> RandomState {
    RandomState::new()
}

/// Relies on std's `BuildHasher::hash_one`: the hash of `()` under the
/// keys of `s`. Nothing is promised of the value.
#[verifier::external_body]
fn hash_unit(s: &RandomState) -> u64 {
    s.hash_one(())
}

/// Byte `j` of `w`, least significant first.
pub open spec fn word_byte(w: u64, j: int) -> u8 {
    ((w >> ((8 * j) as u64)) & 0xff) as u8
}

/// Word `i` of `a`, `b`, `c`.
pub open spec fn word_of(a: u64, b: u64, c: u64, i: int) -> u64 {
    if i == 0 {
        a
    } else if i == 1 {
        b
    } else {
        c
    }
}

/// Whether `id` holds the low four bytes of each of `a`, `b`, `c`, in turn,
/// least significant first.
pub open spec fn is_tx_id_of(id: Seq<u8>, a: u64, b: u64, c: u64) -> bool {
    &&& id.len() == TX_ID_SIZE
    &&& forall|i: int, j: int|
        0 <= i < 3 && 0 <= j < 4 ==> #[trigger] id[4 * i + j] == word_byte(word_of(a, b, c, i), j)
}

/// The transaction ID made of the low four bytes of three random words.
pub fn tx_id_from_words(a: u64, b: u64, c: u64) -> (r: [u8; 12])
    ensures
        is_tx_id_of(r@, a, b, c),
{
    let mut bytes = [0u8; 12];
    let mut i: usize = 0;
    while i < 3
        invariant
            i <= 3,
            bytes@.len() == 12,
            forall|k: int, j: int|
                0 <= k < i && 0 <= j < 4 ==> #[trigger] bytes@[4 * k + j] == word_byte(
                    word_of(a, b, c, k),
                    j,
                ),
        decreases 3 - i,
    {
        let w = if i == 0 {
            a
        } else if i == 1 {
            b
        } else {
            c
        };
        let ghost before = bytes@;
        bytes[4 * i] = (w & 0xff) as u8;
        bytes[4 * i + 1] = ((w >> 8u64) & 0xff) as u8;
        bytes[4 * i + 2] = ((w >> 16u64) & 0xff) as u8;
        bytes[4 * i + 3] = ((w >> 24u64) & 0xff) as u8;
        assert(w >> 0u64 == w) by (bit_vector);
        assert forall|k: int, j: int| 0 <= k < i + 1 && 0 <= j < 4 implies #[trigger] bytes@[4 * k
            + j] == word_byte(word_of(a, b, c, k), j) by {
            if k < i {
                assert(bytes@[4 * k + j] == before[4 * k + j]);
            } else {
                assert(word_of(a, b, c, k) == w);
                if j == 0 {
                    assert(bytes@[4 * k + j] == word_byte(w, 0));
                } else if j == 1 {
                    assert(bytes@[4 * k + j] == word_byte(w, 1));
                } else if j == 2 {
                    assert(bytes@[4 * k + j] == word_byte(w, 2));
                } else {
                    assert(bytes@[4 * k + j] == word_byte(w, 3));
                }
            }
        }
        i = i + 1;
    }
    bytes
}

/// Twelve bytes of process-local randomness labelling one transaction: the
/// low four bytes of three words drawn from freshly keyed hashers.
pub fn random_tx_id() -> (r: [u8; 12])
    ensures
        exists|a: u64, b: u64, c: u64| is_tx_id_of(r@, a, b, c),
{
    let a = hash_unit(&new_random_state());
    let b = hash_unit(&new_random_state());
    let c = hash_unit(&new_random_state());
    tx_id_from_words(a, b, c)
}

/// The Binding Request labelled by `tx_id`.
pub fn encode_request(tx_id: &[u8; 12]) -> (r: [u8; 20])
    ensures
        r@ == request_bytes(tx_id@),
{
    let mut buf = [0u8; 20];
    buf[1] = 0x01;
    buf[4] = 0x21;
    buf[5] = 0x12;
    buf[6] = 0xA4;
    buf[7] = 0x42;
    let mut i: usize = 0;
    while i < 12
        invariant
            i <= 12,
            buf@.len() == 20,
            buf@.subrange(0, 8) == seq![0x00u8, 0x01u8, 0x00u8, 0x00u8] + cookie_bytes(),
            buf@.subrange(8, 8 + i as int) == tx_id@.subrange(0, i as int),
        decreases 12 - i,
    {
        buf[8 + i] = tx_id[i];
        i = i + 1;
        assert(buf@.subrange(8, 8 + i as int) =~= tx_id@.subrange(0, i as int));
    }
    assert(buf@ =~= request_bytes(tx_id@)) by {
        assert(buf@ =~= buf@.subrange(0, 8) + buf@.subrange(8, 20));
        assert(tx_id@.subrange(0, 12) =~= tx_id@);
    }
    buf
}

/// A fresh Binding Request, and the transaction ID it carries.
pub fn build_request() -> (r: ([u8; 20], [u8; 12]))
    ensures
        r.0@ == request_bytes(r.1@),
{
    let tx_id = random_tx_id();
    let buf = encode_request(&tx_id);
    (buf, tx_id)
}

/// Reads the header of a STUN message.
pub fn decode_header(data: &[u8]) -> (r: Result<StunHeader, StunError>)
    ensures
        data@.len() < HEADER_SIZE ==> r == Err::<StunHeader, StunError>(StunError::Malformed),
        data@.len() >= HEADER_SIZE ==> (r matches Ok(h) && h.msg_type == be16(data@, 0)
            && h.length == be16(data@, 2) && h.cookie as nat == be_uint(data@.subrange(4, 8))
            && h.tx_id@ == data@.subrange(8, 20)),
{
    if data.len() < HEADER_SIZE {
        return Err(StunError::Malformed);
    }
    let mut tx_id = [0u8; 12];
    let mut i: usize = 0;
    while i < 12
        invariant
            i <= 12,
            data@.len() >= HEADER_SIZE,
            tx_id@.len() == 12,
            tx_id@.subrange(0, i as int) == data@.subrange(8, 8 + i as int),
        decreases 12 - i,
    {
        tx_id[i] = data[8 + i];
        i = i + 1;
        assert(tx_id@.subrange(0, i as int) =~= data@.subrange(8, 8 + i as int));
    }
    assert(tx_id@ =~= tx_id@.subrange(0, 12));
    proof {
        lemma_be_uint_bound(data@.subrange(4, 8));
        lemma_byte_range_16();
    }
    Ok(StunHeader {
        msg_type: read_u16(data, 0),
        length: read_u16(data, 2),
        cookie: read_be(data, 4, 4) as u32,
        tx_id,
    })
}

/// Parses an XOR-MAPPED-ADDRESS value of the response to transaction `tx_id`.
pub fn parse_xor_mapped(value: &[u8], tx_id: &[u8; 12]) -> (r: Result<SocketAddr, StunError>)
    ensures
        r == spec_xor_mapped(value@, tx_id@),
{
    if value.len() < 8 {
        return Err(StunError::Malformed);
    }
    let family = value[1];
    let port = read_u16(value, 2) ^ PORT_MASK;
    if family == FAMILY_IPV4 {
        proof {
            lemma_be_uint_bound(value@.subrange(4, 8));
            lemma_byte_range_16();
        }
        let ip = (read_be(value, 4, 4) as u32) ^ MAGIC_COOKIE;
        Ok(SocketAddr { ip: IpAddr::V4(ip), port })
    } else if family == FAMILY_IPV6 && value.len() >= 20 {
        let mut key: Vec<u8> = Vec::new();
        key.push(0x21);
        key.push(0x12);
        key.push(0xA4);
        key.push(0x42);
        let mut i: usize = 0;
        while i < 12
            invariant
                i <= 12,
                key@ == cookie_bytes() + tx_id@.subrange(0, i as int),
            decreases 12 - i,
        {
            key.push(tx_id[i]);
            i = i + 1;
            assert(key@ =~= cookie_bytes() + tx_id@.subrange(0, i as int));
        }
        assert(key@.subrange(0, 16) =~= ipv6_key(tx_id@));
        let k = read_be(key.as_slice(), 0, 16);
        let ip = read_be(value, 4, 16) ^ k;
        Ok(SocketAddr { ip: IpAddr::V6(ip), port })
    } else {
        Err(StunError::Malformed)
    }
}

/// Parses a MAPPED-ADDRESS value.
pub fn parse_mapped(value: &[u8]) -> (r: Result<SocketAddr, StunError>)
    ensures
        r == spec_mapped(value@),
{
    if value.len() < 8 {
        return Err(StunError::Malformed);
    }
    let family = value[1];
    let port = read_u16(value, 2);
    if family == FAMILY_IPV4 {
        proof {
            lemma_be_uint_bound(value@.subrange(4, 8));
            lemma_byte_range_16();
        }
        Ok(SocketAddr { ip: IpAddr::V4(read_be(value, 4, 4) as u32), port })
    } else if family == FAMILY_IPV6 && value.len() >= 20 {
        Ok(SocketAddr { ip: IpAddr::V6(read_be(value, 4, 16)), port })
    } else {
        Err(StunError::Malformed)
    }
}

/// Length of the padding-inclusive attribute of value length `len`.
fn padded_len(len: usize) -> (r: usize)
    requires
        len <= 0xFFFF,
    ensures
        r == padded(len as nat),
{
    if len % 4 == 0 {
        len
    } else {
        len + (4 - len % 4)
    }
}

/// Parses the STUN response `data` to the request labelled `tx_id`, and
/// returns the mapped address it carries.
pub fn parse_response(data: &[u8], tx_id: &[u8; 12]) -> (r: Result<SocketAddr, StunError>)
    ensures
        r == spec_parse_response(data@, tx_id@),
{
    if data.len() < HEADER_SIZE {
        return Err(StunError::Malformed);
    }
    if !tx_matches(data, tx_id) {
        return Err(StunError::TransactionIdMismatch);
    }
    let body_len = read_u16(data, 2) as usize;
    if data.len() - HEADER_SIZE < body_len {
        return Err(StunError::Malformed);
    }
    let ghost body = data@.subrange(20, 20 + body_len);
    let mut off: usize = 0;
    let mut mapped: Option<(usize, usize)> = None;
    let mut walking = true;
    while walking
        invariant
            data@.len() >= HEADER_SIZE + body_len,
            body_len <= 0xFFFF,
            body == data@.subrange(20, 20 + body_len),
            off <= body_len,
            walking || first_attr(body, off as nat, ATTR_XOR_MAPPED_ADDRESS) is None,
            !walking && mapped is None ==> first_attr(body, off as nat, ATTR_MAPPED_ADDRESS) is None,
            data@.subrange(8, 20) == tx_id@,
            body_len == be16(data@, 2),
            first_attr(body, 0, ATTR_XOR_MAPPED_ADDRESS) == first_attr(
                body,
                off as nat,
                ATTR_XOR_MAPPED_ADDRESS,
            ),
            mapped is None ==> first_attr(body, 0, ATTR_MAPPED_ADDRESS) == first_attr(
                body,
                off as nat,
                ATTR_MAPPED_ADDRESS,
            ),
            mapped matches Some((a, l)) ==> (a + l <= data@.len() && first_attr(
                body,
                0,
                ATTR_MAPPED_ADDRESS,
            ) == Some(data@.subrange(a as int, a + l))),
        decreases body_len - off + (if walking { 1int } else { 0int }),
    {
        assert(body.len() == body_len);
        if body_len - off < 4 {
            assert(first_attr(body, off as nat, ATTR_XOR_MAPPED_ADDRESS) is None);
            assert(first_attr(body, off as nat, ATTR_MAPPED_ADDRESS) is None);
            walking = false;
        } else {
            let at = HEADER_SIZE + off;
            let attr_type = read_u16(data, at);
            let attr_len = read_u16(data, at + 2) as usize;
            assert(be16(body, off as int) == be16(data@, at as int));
            assert(be16(body, off + 2int) == be16(data@, at + 2int));
            if body_len - off - 4 < attr_len {
                assert(first_attr(body, off as nat, ATTR_XOR_MAPPED_ADDRESS) is None);
                assert(first_attr(body, off as nat, ATTR_MAPPED_ADDRESS) is None);
                walking = false;
            } else {
                let start = at + 4;
                assert(body.subrange(off + 4int, off + 4int + attr_len) =~= data@.subrange(
                    start as int,
                    start + attr_len,
                ));
                if attr_type == ATTR_XOR_MAPPED_ADDRESS {
                    assert(first_attr(body, off as nat, ATTR_XOR_MAPPED_ADDRESS) == Some(
                        data@.subrange(start as int, start + attr_len),
                    ));
                    let value = slice_subrange(data, start, start + attr_len);
                    return parse_xor_mapped(value, tx_id);
                }
                if attr_type == ATTR_MAPPED_ADDRESS && mapped.is_none() {
                    assert(first_attr(body, off as nat, ATTR_MAPPED_ADDRESS) == Some(
                        data@.subrange(start as int, start + attr_len),
                    ));
                    mapped = Some((start, attr_len));
                }
                let step = 4 + padded_len(attr_len);
                if body_len - off < step {
                    assert(first_attr(body, off as nat, ATTR_XOR_MAPPED_ADDRESS) is None);
                    assert(attr_type != ATTR_MAPPED_ADDRESS ==> first_attr(
                        body,
                        off as nat,
                        ATTR_MAPPED_ADDRESS,
                    ) is None);
                    walking = false;
                } else {
                    assert(first_attr(body, off as nat, ATTR_XOR_MAPPED_ADDRESS) == first_attr(
                        body,
                        (off + step) as nat,
                        ATTR_XOR_MAPPED_ADDRESS,
                    ));
                    assert(attr_type != ATTR_MAPPED_ADDRESS ==> first_attr(
                        body,
                        off as nat,
                        ATTR_MAPPED_ADDRESS,
                    ) == first_attr(body, (off + step) as nat, ATTR_MAPPED_ADDRESS));
                    off = off + step;
                }
            }
        }
    }
    match mapped {
        Some((a, l)) => parse_mapped(slice_subrange(data, a, a + l)),
        None => Err(StunError::Malformed),
    }
}

/// Whether the message `data` carries the transaction ID `tx_id`.
fn tx_matches(data: &[u8], tx_id: &[u8; 12]) -> (r: bool)
    requires
        data@.len() >= HEADER_SIZE,
    ensures
        r == (data@.subrange(8, 20) == tx_id@),
{
    let mut i: usize = 0;
    while i < 12
        invariant
            i <= 12,
            data@.len() >= HEADER_SIZE,
            data@.subrange(8, 8 + i as int) == tx_id@.subrange(0, i as int),
        decreases 12 - i,
    {
        if data[8 + i] != tx_id[i] {
            assert(data@.subrange(8, 20)[i as int] != tx_id@[i as int]);
            return false;
        }
        i = i + 1;
        assert(data@.subrange(8, 8 + i as int) =~= tx_id@.subrange(0, i as int));
    }
    assert(data@.subrange(8, 20) =~= tx_id@);
    true
}

/// What the header of a response to transaction `tx` admits: first the
/// transaction ID must match, then the declared body must not exceed the
/// bound; then the body length.
pub open spec fn spec_header_check(header: Seq<u8>, tx: Seq<u8>) -> Result<usize, StunError> {
    if header.subrange(8, 20) != tx {
        Err(StunError::TransactionIdMismatch)
    } else if be16(header, 2) > MAX_BODY_SIZE {
        Err(StunError::ResponseTooLarge)
    } else {
        Ok(be16(header, 2) as usize)
    }
}

/// Checks a response header against transaction `tx_id` and returns the
/// body length it declares.
pub fn response_body_len(header: &[u8], tx_id: &[u8; 12]) -> (r: Result<usize, StunError>)
    requires
        header@.len() >= HEADER_SIZE,
    ensures
        r == spec_header_check(header@, tx_id@),
{
    if !tx_matches(header, tx_id) {
        return Err(StunError::TransactionIdMismatch);
    }
    let body_len = read_u16(header, 2) as usize;
    if body_len > MAX_BODY_SIZE {
        Err(StunError::ResponseTooLarge)
    } else {
        Ok(body_len)
    }
}

/// The outcome of reading a whole response message `data`: too short a
/// message is malformed, then the header is checked (transaction ID, then
/// the body bound), and otherwise the response is parsed.
pub open spec fn spec_decode_response(data: Seq<u8>, tx: Seq<u8>) -> Result<SocketAddr, StunError> {
    if data.len() < HEADER_SIZE {
        Err(StunError::Malformed)
    } else {
        match spec_header_check(data, tx) {
            Err(e) => Err(e),
            Ok(_) => spec_parse_response(data, tx),
        }
    }
}

/// Reads a whole response message `data` to the request labelled `tx_id`.
pub fn decode_response(data: &[u8], tx_id: &[u8; 12]) -> (r: Result<SocketAddr, StunError>)
    ensures
        r == spec_decode_response(data@, tx_id@),
{
    if data.len() < HEADER_SIZE {
        return Err(StunError::Malformed);
    }
    match response_body_len(data, tx_id) {
        Err(e) => Err(e),
        Ok(_) => parse_response(data, tx_id),
    }
}

proof fn lemma_be_bytes_len(x: nat, n: nat)
    ensures
        be_bytes(x, n).len() == n,
    decreases n,
{
    if n > 0 {
        lemma_be_bytes_len(x / 256, (n - 1) as nat);
    }
}

proof fn lemma_be_bytes_value(x: nat, n: nat)
    requires
        x < byte_range(n),
    ensures
        be_uint(be_bytes(x, n)) == x,
    decreases n,
{
    if n > 0 {
        let b = byte_range((n - 1) as nat);
        assert(x / 256 < b) by (nonlinear_arith)
            requires
                x < 256 * b,
        ;
        lemma_be_bytes_value(x / 256, (n - 1) as nat);
        let s = be_bytes(x, n);
        assert(s.drop_last() =~= be_bytes(x / 256, (n - 1) as nat));
        assert(x == (x / 256) * 256 + x % 256) by (nonlinear_arith);
    }
}

/// Appends the `n` big-endian bytes of `x`.
fn push_be(out: &mut Vec<u8>, x: u128, n: usize)
    requires
        n <= 16,
    ensures
        final(out)@ == old(out)@ + be_bytes(x as nat, n as nat),
    decreases n,
{
    if n > 0 {
        push_be(out, x / 256, n - 1);
        out.push((x % 256) as u8);
        assert(final(out)@ =~= old(out)@ + be_bytes(x as nat, n as nat));
    } else {
        assert(final(out)@ =~= old(out)@ + be_bytes(x as nat, n as nat));
    }
}

/// Builds the value of an XOR-MAPPED-ADDRESS attribute that carries `addr`,
/// for the transaction labelled `tx_id`.
pub fn encode_xor_mapped(addr: SocketAddr, tx_id: &[u8; 12]) -> (r: Vec<u8>)
    ensures
        r@ == xor_mapped_bytes(addr, tx_id@),
{
    let mut out: Vec<u8> = Vec::new();
    out.push(0);
    let xport = addr.port ^ PORT_MASK;
    match addr.ip {
        IpAddr::V4(ip) => {
            out.push(FAMILY_IPV4);
            push_be(&mut out, xport as u128, 2);
            push_be(&mut out, (ip ^ MAGIC_COOKIE) as u128, 4);
        },
        IpAddr::V6(ip) => {
            out.push(FAMILY_IPV6);
            let mut key: Vec<u8> = Vec::new();
            push_be(&mut key, MAGIC_COOKIE as u128, 4);
            let mut i: usize = 0;
            proof {
                reveal_with_fuel(be_bytes, 5);
            }
            assert(key@ =~= cookie_bytes() + tx_id@.subrange(0, 0));
            while i < 12
                invariant
                    i <= 12,
                    key@ == cookie_bytes() + tx_id@.subrange(0, i as int),
                decreases 12 - i,
            {
                key.push(tx_id[i]);
                i = i + 1;
                assert(key@ =~= cookie_bytes() + tx_id@.subrange(0, i as int));
            }
            assert(key@.subrange(0, 16) =~= ipv6_key(tx_id@));
            let k = read_be(key.as_slice(), 0, 16);
            push_be(&mut out, xport as u128, 2);
            push_be(&mut out, ip ^ k, 16);
        },
    }
    assert(out@ =~= xor_mapped_bytes(addr, tx_id@));
    out
}

/// Decoding the header of the Binding Request labelled `tx` gives back the
/// Binding Request type, an empty body, the magic cookie and `tx` itself.
pub proof fn lemma_request_decodes(tx: Seq<u8>)
    requires
        tx.len() == TX_ID_SIZE,
    ensures
        request_bytes(tx).len() == HEADER_SIZE,
        be16(request_bytes(tx), 0) == BINDING_REQUEST,
        be16(request_bytes(tx), 2) == 0,
        be_uint(request_bytes(tx).subrange(4, 8)) == MAGIC_COOKIE,
        request_bytes(tx).subrange(8, 20) == tx,
{
    let r = request_bytes(tx);
    assert(r.subrange(4, 8) =~= cookie_bytes());
    assert(r.subrange(8, 20) =~= tx);
    reveal_with_fuel(be_uint, 5);
    assert(cookie_bytes().drop_last().drop_last().drop_last().drop_last() =~= Seq::<u8>::empty());
    assert(cookie_bytes().drop_last().drop_last().drop_last() =~= seq![0x21u8]);
    assert(cookie_bytes().drop_last().drop_last() =~= seq![0x21u8, 0x12u8]);
    assert(cookie_bytes().drop_last() =~= seq![0x21u8, 0x12u8, 0xA4u8]);
}

/// Building an XOR-MAPPED-ADDRESS value from an address and a transaction
/// ID, then parsing it for that transaction, gives back the address.
pub proof fn lemma_xor_mapped_round_trip(a: SocketAddr, tx: Seq<u8>)
    requires
        tx.len() == TX_ID_SIZE,
    ensures
        spec_xor_mapped(xor_mapped_bytes(a, tx), tx) == Ok::<SocketAddr, StunError>(a),
{
    let v = xor_mapped_bytes(a, tx);
    let xport = a.port ^ PORT_MASK;
    lemma_byte_range_16();
    reveal_with_fuel(byte_range, 3);
    lemma_be_bytes_len(xport as nat, 2);
    reveal_with_fuel(be_bytes, 3);
    let pb = be_bytes(xport as nat, 2);
    assert(pb[0] as int * 256 + pb[1] as int == xport as int) by {
        assert(pb =~= seq![((xport as nat / 256) % 256) as u8, (xport as nat % 256) as u8]);
    }
    let port = a.port;
    assert((xport ^ PORT_MASK) == port) by (bit_vector)
        requires
            xport == port ^ PORT_MASK,
    ;
    match a.ip {
        IpAddr::V4(ip) => {
            let x = ip ^ MAGIC_COOKIE;
            lemma_be_bytes_len(x as nat, 4);
            lemma_be_bytes_value(x as nat, 4);
            assert(v.subrange(4, 8) =~= be_bytes(x as nat, 4));
            assert((x ^ MAGIC_COOKIE) == ip) by (bit_vector)
                requires
                    x == ip ^ MAGIC_COOKIE,
            ;
        },
        IpAddr::V6(ip) => {
            let kb = ipv6_key(tx);
            lemma_be_uint_bound(kb);
            let k = be_uint(kb) as u128;
            let x = ip ^ k;
            lemma_be_bytes_len(x as nat, 16);
            lemma_be_bytes_value(x as nat, 16);
            assert(v.subrange(4, 20) =~= be_bytes(x as nat, 16));
            assert((x ^ k) == ip) by (bit_vector)
                requires
                    x == ip ^ k,
            ;
        },
    }
}

/// An attribute of any value length ends on a 4-byte boundary: the next
/// attribute starts at the length rounded up to a multiple of 4.
pub proof fn lemma_attr_padding(len: nat)
    ensures
        padded(len) % 4 == 0,
        len <= padded(len) < len + 4,
{
}

} // verus!
