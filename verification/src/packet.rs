//! The one-byte packet header: bits [7:3] name the source stimulus port,
//! bits [2:0] carry the packet-type code, and the type code alone fixes how
//! many payload bytes follow the header.

use vstd::prelude::*;

verus! {

/// The stimulus port a header byte names: its upper five bits.
pub open spec fn spec_port(header: u8) -> u8 {
    header >> 3
}

/// The packet-type code of a header byte: its lower three bits.
pub open spec fn spec_type_code(header: u8) -> u8 {
    header & 7
}

/// How many payload bytes follow a header. Codes 1, 2 and 3 carry 1, 2 and
/// 4 bytes; every other code is unrecognized and carries none. The length
/// depends on the type code alone, never on the port.
pub open spec fn spec_payload_len(header: u8) -> nat {
    if header & 7 == 1 {
        1
    } else if header & 7 == 2 {
        2
    } else if header & 7 == 3 {
        4
    } else {
        0
    }
}

/// Whole length of the packet a header byte opens: the header itself plus
/// its payload.
pub open spec fn spec_packet_len(header: u8) -> nat {
    1 + spec_payload_len(header)
}

/// Extracts the stimulus port from a header byte; only ports 0 through 31
/// can be named.
pub fn extract_port(header: u8) -> (port: u8)
    ensures
        port == spec_port(header),
        port < 32,
{
    proof {
        assert(header >> 3 < 32) by (bit_vector);
    }
    header >> 3
}

/// Extracts the packet-type code from a header byte.
pub fn extract_type_code(header: u8) -> (code: u8)
    ensures
        code == spec_type_code(header),
        code < 8,
{
    proof {
        assert(header & 7 < 8) by (bit_vector);
    }
    header & 7
}

/// How many payload bytes must be read after this header, whether or not the
/// packet will be forwarded.
pub fn payload_len(header: u8) -> (n: usize)
    ensures
        n == spec_payload_len(header),
        n <= 4,
{
    let code = header & 7;
    if code == 1 {
        1
    } else if code == 2 {
        2
    } else if code == 3 {
        4
    } else {
        0
    }
}

/// Whether a header byte addresses the configured stimulus port. A
/// configured port above 31 matches no header.
pub fn port_matches(header: u8, port: u8) -> (b: bool)
    ensures
        b == (spec_port(header) == port),
{
    header >> 3 == port
}

/// The payload length owed to a header depends on its type code alone:
/// two headers with the same type code owe the same number of payload
/// bytes, whatever ports they name.
pub proof fn lemma_payload_len_from_type_code(h1: u8, h2: u8)
    requires
        spec_type_code(h1) == spec_type_code(h2),
    ensures
        spec_payload_len(h1) == spec_payload_len(h2),
{
}

} // verus!
