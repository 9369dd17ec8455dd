//! STUN (RFC 5389) message framing for discovering a device's public endpoint.
//!
//! The library builds Binding Requests and reads the XOR-MAPPED-ADDRESS out
//! of Binding Responses; the application sends and receives the datagrams.

use crate::text::{append, decimal, u64_to_chars};
use vstd::prelude::*;

verus! {

/// Message type of a Binding Request.
pub const STUN_METHOD_BINDING: u16 = 0x0001;

/// Message type of a Binding Response.
pub const STUN_METHOD_BINDING_RESPONSE: u16 = 0x0101;

/// The fixed magic cookie of every STUN message.
pub const STUN_MAGIC_COOKIE: u32 = 0x2112_A442;

/// Attribute type of XOR-MAPPED-ADDRESS.
pub const STUN_ATTR_XOR_MAPPED_ADDRESS: u16 = 0x0020;

/// Length of the STUN message header.
pub const STUN_HEADER_LEN: usize = 20;

/// Why a Binding Response could not be read.
#[derive(Clone, Copy, Debug, PartialEq, Eq, Structural)]
pub enum StunError {
    /// Fewer than 24 bytes.
    ResponseTooShort,
    /// The message type is not Binding Response; the type found.
    UnexpectedMessageType(u16),
    /// The magic cookie is wrong.
    InvalidMagicCookie,
    /// No XOR-MAPPED-ADDRESS attribute.
    MappedAddressNotFound,
    /// The attribute is shorter than 4 bytes or longer than the data.
    InvalidAddressLength,
    /// The address family is not IPv4.
    NotIpv4,
}

/// A big-endian 16-bit value.
pub open spec fn be16(hi: u8, lo: u8) -> u16 {
    ((hi as u16) * 256 + (lo as u16)) as u16
}

/// A big-endian 32-bit value.
pub open spec fn be32(b0: u8, b1: u8, b2: u8, b3: u8) -> u32 {
    ((b0 as u32) * 0x100_0000 + (b1 as u32) * 0x1_0000 + (b2 as u32) * 0x100 + (b3 as u32)) as u32
}

/// A length rounded up to a multiple of four.
pub open spec fn padded(len: u16) -> nat {
    (((len as nat) + 3) / 4) * 4
}

/// Dotted-decimal text of an IPv4 address.
pub open spec fn ipv4_text(a: u8, b: u8, c: u8, d: u8) -> Seq<char> {
    decimal(a as nat) + seq!['.'] + decimal(b as nat) + seq!['.'] + decimal(c as nat) + seq!['.']
        + decimal(d as nat)
}

/// The big-endian bytes of the magic cookie.
pub open spec fn cookie_byte(i: int) -> u8 {
    if i == 0 {
        0x21u8
    } else if i == 1 {
        0x12u8
    } else if i == 2 {
        0xA4u8
    } else {
        0x42u8
    }
}

/// The result of reading an XOR-MAPPED-ADDRESS value of `length` bytes from
/// the start of `data`; `None` where the reading would index past the data
/// (a four- to seven-byte IPv4 value at the very end of the message).
pub open spec fn xor_address_spec(data: Seq<u8>, length: nat) -> Option<
    Result<(Seq<char>, u16), StunError>,
> {
    if length < 4 || data.len() < length {
        Some(Err(StunError::InvalidAddressLength))
    } else if data[0] != 0x01 {
        Some(Err(StunError::NotIpv4))
    } else if data.len() < 8 {
        None
    } else {
        let port = be16(data[2], data[3]) ^ 0x2112u16;
        Some(
            Ok(
                (
                    ipv4_text(
                        data[4] ^ cookie_byte(0),
                        data[5] ^ cookie_byte(1),
                        data[6] ^ cookie_byte(2),
                        data[7] ^ cookie_byte(3),
                    ),
                    port,
                ),
            ),
        )
    }
}

/// Scans the attributes of `data` from `offset`, one header at a time:
/// while `offset < len - 4`, read an attribute header, decode it if it is
/// XOR-MAPPED-ADDRESS, otherwise skip its padded value.
pub open spec fn scan_attributes(data: Seq<u8>, offset: nat) -> Option<
    Result<(Seq<char>, u16), StunError>,
>
    decreases (if data.len() > offset {
        data.len() - offset
    } else {
        0
    }),
{
    let o = offset as int;
    if data.len() >= 4 && o < data.len() - 4 {
        let attr_type = be16(data[o], data[o + 1]);
        let attr_len = be16(data[o + 2], data[o + 3]);
        if attr_type == STUN_ATTR_XOR_MAPPED_ADDRESS {
            xor_address_spec(data.subrange(o + 4, data.len() as int), attr_len as nat)
        } else {
            scan_attributes(data, offset + 4 + padded(attr_len))
        }
    } else {
        Some(Err(StunError::MappedAddressNotFound))
    }
}

/// Reading a Binding Response: header checks, then the attribute scan.
/// `None` marks the responses on which the reading would index past the data.
pub open spec fn mapped_address_spec(data: Seq<u8>) -> Option<
    Result<(Seq<char>, u16), StunError>,
> {
    if data.len() < 24 {
        Some(Err(StunError::ResponseTooShort))
    } else if be16(data[0], data[1]) != STUN_METHOD_BINDING_RESPONSE {
        Some(Err(StunError::UnexpectedMessageType(be16(data[0], data[1]))))
    } else if be32(data[4], data[5], data[6], data[7]) != STUN_MAGIC_COOKIE {
        Some(Err(StunError::InvalidMagicCookie))
    } else {
        scan_attributes(data, 20)
    }
}

/// The Binding Request with the given transaction id.
pub open spec fn binding_request_spec(transaction_id: Seq<u8>) -> Seq<u8> {
    seq![0x00u8, 0x01u8, 0x00u8, 0x00u8, 0x21u8, 0x12u8, 0xA4u8, 0x42u8] + transaction_id
}

fn read_be16(data: &[u8], at: usize) -> (r: u16)
    requires
        at + 1 < data.len(),
    ensures
        r == be16(data@[at as int], data@[at + 1]),
{
    (data[at] as u16) * 256 + (data[at + 1] as u16)
}

fn read_be32(data: &[u8], at: usize) -> (r: u32)
    requires
        at + 3 < data.len(),
    ensures
        r == be32(data@[at as int], data@[at + 1], data@[at + 2], data@[at + 3]),
{
    (data[at] as u32) * 0x100_0000 + (data[at + 1] as u32) * 0x1_0000 + (data[at + 2] as u32)
        * 0x100 + (data[at + 3] as u32)
}

/// Dotted-decimal text of an IPv4 address.
pub fn ipv4_to_string(a: u8, b: u8, c: u8, d: u8) -> (r: String)
    ensures
        r@ == ipv4_text(a, b, c, d),
{
    let mut out = u64_to_chars(a as u64);
    out.push('.');
    append(&mut out, u64_to_chars(b as u64).as_slice());
    out.push('.');
    append(&mut out, u64_to_chars(c as u64).as_slice());
    out.push('.');
    append(&mut out, u64_to_chars(d as u64).as_slice());
    assert(out@ =~= ipv4_text(a, b, c, d));
    crate::text::string_of(out.as_slice())
}

/// Reads an XOR-MAPPED-ADDRESS value of `length` bytes from the start of
/// `data`: the port and IPv4 address, each XORed with the magic cookie.
pub fn parse_xor_address(data: &[u8], length: usize) -> (r: Result<(String, u16), StunError>)
    requires
        xor_address_spec(data@, length as nat) is Some,
    ensures
        match r {
            Ok((ip, port)) => xor_address_spec(data@, length as nat) == Some(
                Ok::<(Seq<char>, u16), StunError>((ip@, port)),
            ),
            Err(e) => xor_address_spec(data@, length as nat) == Some(
                Err::<(Seq<char>, u16), StunError>(e),
            ),
        },
{
    if length < 4 || data.len() < length {
        return Err(StunError::InvalidAddressLength);
    }
    let family = data[0];
    if family != 0x01 {
        return Err(StunError::NotIpv4);
    }
    let port = read_be16(data, 2) ^ 0x2112u16;
    let ip = ipv4_to_string(data[4] ^ 0x21u8, data[5] ^ 0x12u8, data[6] ^ 0xA4u8, data[7] ^ 0x42u8);
    Ok((ip, port))
}

/// Whether `parse_xor_mapped_address` can read `data` without indexing past
/// it; it can on every response except one whose XOR-MAPPED-ADDRESS is an
/// IPv4 value of four to seven bytes ending the message.
pub fn mapped_address_readable(data: &[u8]) -> (r: bool)
    requires
        data@.len() <= usize::MAX / 2,
    ensures
        r == (mapped_address_spec(data@) is Some),
{
    match scan(data) {
        ScanOutcome::Unreadable => false,
        _ => true,
    }
}

/// A copy of `data[from..]`.
fn copy_tail(data: &[u8], from: usize) -> (r: Vec<u8>)
    requires
        from <= data.len(),
    ensures
        r@ == data@.subrange(from as int, data@.len() as int),
{
    let mut r: Vec<u8> = Vec::new();
    let mut i = from;
    while i < data.len()
        invariant
            from <= i <= data.len(),
            r@ == data@.subrange(from as int, i as int),
        decreases data.len() - i,
    {
        r.push(data[i]);
        assert(data@.subrange(from as int, i as int).push(data@[i as int]) =~= data@.subrange(
            from as int,
            i + 1,
        ));
        i = i + 1;
    }
    r
}

enum ScanOutcome {
    Unreadable,
    Done(Result<(String, u16), StunError>),
}

/// Runs the header checks and the attribute scan.
fn scan(data: &[u8]) -> (r: ScanOutcome)
    requires
        data@.len() <= usize::MAX / 2,
    ensures
        match r {
            ScanOutcome::Unreadable => mapped_address_spec(data@) is None,
            ScanOutcome::Done(Ok((ip, port))) => mapped_address_spec(data@) == Some(
                Ok::<(Seq<char>, u16), StunError>((ip@, port)),
            ),
            ScanOutcome::Done(Err(e)) => mapped_address_spec(data@) == Some(
                Err::<(Seq<char>, u16), StunError>(e),
            ),
        },
{
    if data.len() < STUN_HEADER_LEN + 4 {
        return ScanOutcome::Done(Err(StunError::ResponseTooShort));
    }
    let msg_type = read_be16(data, 0);
    if msg_type != STUN_METHOD_BINDING_RESPONSE {
        return ScanOutcome::Done(Err(StunError::UnexpectedMessageType(msg_type)));
    }
    let magic_cookie = read_be32(data, 4);
    if magic_cookie != STUN_MAGIC_COOKIE {
        return ScanOutcome::Done(Err(StunError::InvalidMagicCookie));
    }
    let mut offset: usize = STUN_HEADER_LEN;
    while offset < data.len() - 4
        invariant
            data@.len() >= 24,
            data@.len() <= usize::MAX / 2,
            offset <= data@.len() + 65540,
            mapped_address_spec(data@) == scan_attributes(data@, offset as nat),
        decreases (if data.len() > offset {
            data.len() - offset
        } else {
            0
        }),
    {
        let attr_type = read_be16(data, offset);
        let attr_length = read_be16(data, offset + 2);
        if attr_type == STUN_ATTR_XOR_MAPPED_ADDRESS {
            let rest_vec = copy_tail(data, offset + 4);
            let rest = rest_vec.as_slice();
            let len = attr_length as usize;
            if len >= 4 && rest.len() >= len && rest[0] == 0x01 && rest.len() < 8 {
                return ScanOutcome::Unreadable;
            }
            return ScanOutcome::Done(parse_xor_address(rest, len));
        }
        offset = offset + 4 + ((attr_length as usize + 3) / 4) * 4;
    }
    ScanOutcome::Done(Err(StunError::MappedAddressNotFound))
}

/// Reads the public address and port from a STUN Binding Response.
pub fn parse_xor_mapped_address(data: &[u8]) -> (r: Result<(String, u16), StunError>)
    requires
        data@.len() <= usize::MAX / 2,
        mapped_address_spec(data@) is Some,
    ensures
        match r {
            Ok((ip, port)) => mapped_address_spec(data@) == Some(
                Ok::<(Seq<char>, u16), StunError>((ip@, port)),
            ),
            Err(e) => mapped_address_spec(data@) == Some(Err::<(Seq<char>, u16), StunError>(e)),
        },
{
    match scan(data) {
        ScanOutcome::Done(r) => r,
        ScanOutcome::Unreadable => Err(StunError::MappedAddressNotFound),
    }
}

/// A Binding Request with the given 12-byte transaction id.
pub fn build_binding_request(transaction_id: [u8; 12]) -> (r: Vec<u8>)
    ensures
        r@ == binding_request_spec(transaction_id@),
        r@.len() == STUN_HEADER_LEN,
{
    let mut msg: Vec<u8> = Vec::new();
    msg.push(0x00);
    msg.push(0x01);
    msg.push(0x00);
    msg.push(0x00);
    msg.push(0x21);
    msg.push(0x12);
    msg.push(0xA4);
    msg.push(0x42);
    let mut i: usize = 0;
    while i < 12
        invariant
            i <= 12,
            msg@ == seq![0x00u8, 0x01u8, 0x00u8, 0x00u8, 0x21u8, 0x12u8, 0xA4u8, 0x42u8]
                + transaction_id@.subrange(0, i as int),
        decreases 12 - i,
    {
        msg.push(transaction_id[i]);
        assert(transaction_id@.subrange(0, i + 1) =~= transaction_id@.subrange(0, i as int).push(
            transaction_id@[i as int],
        ));
        i = i + 1;
    }
    assert(transaction_id@.subrange(0, 12) =~= transaction_id@);
    msg
}

/// A random transaction id from `rand::random`.
///
/// Nothing is claimed of the bytes: they come from the thread-local
/// random number generator.
#[verifier::external_body]
pub(crate) fn new_transaction_id() -> (r: [u8; 12]) {
    rand::random()
}

/// A Binding Request with a fresh random transaction id.
pub fn new_binding_request() -> (r: Vec<u8>)
    ensures
        r@.len() == STUN_HEADER_LEN,
        r@.subrange(0, 8) == seq![0x00u8, 0x01u8, 0x00u8, 0x00u8, 0x21u8, 0x12u8, 0xA4u8, 0x42u8],
{
    let id = new_transaction_id();
    let r = build_binding_request(id);
    assert(r@.subrange(0, 8) =~= seq![0x00u8, 0x01u8, 0x00u8, 0x00u8, 0x21u8, 0x12u8, 0xA4u8, 0x42u8]);
    r
}

/// Whether the NAT maps by destination, judged from the public endpoints
/// that two STUN servers reported: symmetric when the first two ports
/// differ, and assumed symmetric when fewer than two servers answered.
pub fn is_nat_symmetric_from(mapped: &[(String, u16)]) -> (r: bool)
    ensures
        r == (mapped@.len() < 2 || mapped@[0].1 != mapped@[1].1),
{
    if mapped.len() >= 2 {
        return mapped[0].1 != mapped[1].1;
    }
    true
}


/// The bytes of an XOR-MAPPED-ADDRESS value for the IPv4 address
/// `a.b.c.d` and `port`, as a server writes them: family 1 first, then a
/// free byte, the port XORed with the top half of the magic cookie (big
/// endian), and each address byte XORed with the matching cookie byte.
pub open spec fn xor_address_bytes(free: u8, a: u8, b: u8, c: u8, d: u8, port: u16) -> Seq<u8> {
    let x: u16 = port ^ 0x2112u16;
    seq![
        0x01u8,
        free,
        (x >> 8u16) as u8,
        (x & 0xffu16) as u8,
        a ^ 0x21u8,
        b ^ 0x12u8,
        c ^ 0xA4u8,
        d ^ 0x42u8,
    ]
}

/// Reading undoes the XOR encoding: the value written for `a.b.c.d` and
/// `port` (followed by any further bytes, with a length from 8 up to the
/// data) is read back as the address `a.b.c.d` and the same port.
pub proof fn lemma_xor_address_round_trip(
    free: u8,
    a: u8,
    b: u8,
    c: u8,
    d: u8,
    port: u16,
    rest: Seq<u8>,
    length: nat,
)
    requires
        8 <= length <= 8 + rest.len(),
    ensures
        xor_address_spec(xor_address_bytes(free, a, b, c, d, port) + rest, length) == Some(
            Ok::<(Seq<char>, u16), StunError>((ipv4_text(a, b, c, d), port)),
        ),
{
    let data = xor_address_bytes(free, a, b, c, d, port) + rest;
    let x: u16 = port ^ 0x2112u16;
    let hi: u8 = (x >> 8u16) as u8;
    let lo: u8 = (x & 0xffu16) as u8;
    assert(data[2] == hi && data[3] == lo);
    assert((((hi as u16) * 256 + (lo as u16)) as u16) ^ 0x2112u16 == port) by (bit_vector)
        requires
            x == port ^ 0x2112u16,
            hi == (x >> 8u16) as u8,
            lo == (x & 0xffu16) as u8,
    ;
    assert((a ^ 0x21u8) ^ 0x21u8 == a) by (bit_vector);
    assert((b ^ 0x12u8) ^ 0x12u8 == b) by (bit_vector);
    assert((c ^ 0xA4u8) ^ 0xA4u8 == c) by (bit_vector);
    assert((d ^ 0x42u8) ^ 0x42u8 == d) by (bit_vector);
    assert(data[0] == 0x01u8);
    assert(data[4] == a ^ 0x21u8 && data[5] == b ^ 0x12u8 && data[6] == c ^ 0xA4u8 && data[7] == d ^ 0x42u8);
}

} // verus!
