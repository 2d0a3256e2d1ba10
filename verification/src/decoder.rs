//! The packet decode step and the whole-stream decoder: packets are framed
//! by their header byte, a complete packet is always consumed whole to keep
//! the stream aligned on header boundaries, and a payload is forwarded
//! exactly when its header names the configured stimulus port.

use vstd::prelude::*;

use crate::packet::{
    payload_len, port_matches, spec_packet_len, spec_payload_len, spec_port,
};

verus! {

/// The filtered content of a byte stream: the payloads of the complete
/// packets addressed to `port`, concatenated in stream order. A stream that
/// ends inside a packet (or is empty) contributes nothing more from that
/// point on.
pub open spec fn spec_decode(stream: Seq<u8>, port: u8) -> Seq<u8>
    decreases stream.len(),
{
    if stream.len() == 0 {
        Seq::empty()
    } else {
        let header = stream[0];
        let n = spec_payload_len(header) as int;
        if stream.len() < 1 + n {
            Seq::empty()
        } else {
            let rest = spec_decode(stream.skip(1 + n), port);
            if spec_port(header) == port {
                stream.subrange(1, 1 + n) + rest
            } else {
                rest
            }
        }
    }
}

/// A stream made of a whole number of complete packets.
pub open spec fn is_packets(stream: Seq<u8>) -> bool
    decreases stream.len(),
{
    if stream.len() == 0 {
        true
    } else if stream.len() < spec_packet_len(stream[0]) {
        false
    } else {
        is_packets(stream.skip(spec_packet_len(stream[0]) as int))
    }
}

/// What one attempt at decoding the packet at the front of a buffered
/// window produced.
#[derive(Debug, PartialEq)]
pub enum Step {
    /// The window ends before the packet does: nothing was consumed; wait
    /// for more bytes and retry.
    NeedMore,
    /// A complete packet, header and payload, was consumed. `forwarded`
    /// holds the payload when the packet addressed the configured port,
    /// and nothing otherwise.
    Packet { consumed: usize, forwarded: Option<Vec<u8>> },
}

/// Decodes the single packet that begins at `start` in `input`. One header
/// byte fixes the payload length from its type code alone; the whole packet
/// is consumed whether or not its port matches, and its payload is handed
/// back exactly when it does.
pub fn step_packet(input: &Vec<u8>, start: usize, port: u8) -> (step: Step)
    requires
        start <= input@.len(),
    ensures
        match step {
            Step::NeedMore => start == input@.len() || input@.len() < start
                + spec_packet_len(input@[start as int]),
            Step::Packet { consumed, forwarded } => {
                &&& start < input@.len()
                &&& start + spec_packet_len(input@[start as int]) <= input@.len()
                &&& consumed == spec_packet_len(input@[start as int])
                &&& match forwarded {
                    Some(payload) => spec_port(input@[start as int]) == port && payload@
                        == input@.subrange(start + 1, start + consumed),
                    None => spec_port(input@[start as int]) != port,
                }
            },
        },
{
    if start == input.len() {
        return Step::NeedMore;
    }
    let header = input[start];
    let n = payload_len(header);
    if input.len() - start < 1 + n {
        return Step::NeedMore;
    }
    let consumed = 1 + n;
    if port_matches(header, port) {
        let mut payload: Vec<u8> = Vec::new();
        let mut j: usize = 0;
        while j < n
            invariant
                j <= n,
                n == spec_payload_len(header),
                header == input@[start as int],
                start + 1 + n <= input@.len(),
                input@.len() <= usize::MAX,
                payload@ == input@.subrange(start + 1, start + 1 + j),
            decreases n - j,
        {
            payload.push(input[start + 1 + j]);
            j = j + 1;
            proof {
                assert(payload@ =~= input@.subrange(start + 1, start + 1 + j));
            }
        }
        Step::Packet { consumed, forwarded: Some(payload) }
    } else {
        Step::Packet { consumed, forwarded: None }
    }
}

/// Decodes a buffered stream in full: complete packets are consumed in
/// order, and exactly the payloads addressed to `port` appear in the output,
/// in stream order, with nothing added or omitted. A trailing incomplete
/// packet forwards nothing.
pub fn decode_stream(input: &Vec<u8>, port: u8) -> (out: Vec<u8>)
    ensures
        out@ == spec_decode(input@, port),
{
    let mut out: Vec<u8> = Vec::new();
    let mut pos: usize = 0;
    let len = input.len();
    proof {
        assert(input@.skip(0) =~= input@);
        assert(Seq::<u8>::empty() + spec_decode(input@, port) =~= spec_decode(input@, port));
    }
    loop
        invariant
            len == input@.len(),
            pos <= len,
            spec_decode(input@, port) == out@ + spec_decode(input@.skip(pos as int), port),
        ensures
            out@ == spec_decode(input@, port),
        decreases input@.len() - pos,
    {
        let ghost rest = input@.skip(pos as int);
        match step_packet(input, pos, port) {
            Step::NeedMore => {
                proof {
                    if pos < input@.len() {
                        assert(rest[0] == input@[pos as int]);
                    }
                    assert(spec_decode(rest, port) == Seq::<u8>::empty());
                    assert(out@ + Seq::<u8>::empty() =~= out@);
                }
                return out;
            },
            Step::Packet { consumed, forwarded } => {
                proof {
                    let n = spec_payload_len(input@[pos as int]) as int;
                    assert(rest[0] == input@[pos as int]);
                    assert(rest.skip(1 + n) =~= input@.skip(pos + consumed));
                    assert(rest.subrange(1, 1 + n) =~= input@.subrange(
                        pos + 1,
                        pos + consumed,
                    ));
                }
                match forwarded {
                    Some(payload) => {
                        let mut payload = payload;
                        proof {
                            assert((out@ + payload@) + spec_decode(
                                input@.skip(pos + consumed),
                                port,
                            ) =~= out@ + (payload@ + spec_decode(
                                input@.skip(pos + consumed),
                                port,
                            )));
                        }
                        out.append(&mut payload);
                    },
                    None => {},
                }
                pos = pos + consumed;
            },
        }
    }
}

/// Framing is compositional: ahead of any further bytes, a run of whole
/// packets contributes exactly its own matching payloads to the decoded
/// output. Concatenating any number of complete packets therefore decodes
/// to the concatenation of the matching packets' payloads, however many
/// packets there are and however they interleave with other ports' traffic.
pub proof fn lemma_decode_append(a: Seq<u8>, b: Seq<u8>, port: u8)
    requires
        is_packets(a),
    ensures
        spec_decode(a + b, port) == spec_decode(a, port) + spec_decode(b, port),
    decreases a.len(),
{
    if a.len() == 0 {
        assert(a + b =~= b);
        assert(spec_decode(a, port) + spec_decode(b, port) =~= spec_decode(b, port));
    } else {
        let header = a[0];
        let plen = spec_packet_len(header) as int;
        let a2 = a.skip(plen);
        lemma_decode_append(a2, b, port);
        assert((a + b)[0] == header);
        assert((a + b).skip(plen) =~= a2 + b);
        assert((a + b).subrange(1, plen) =~= a.subrange(1, plen));
        if spec_port(header) == port {
            assert(a.subrange(1, plen) + (spec_decode(a2, port) + spec_decode(b, port)) =~= (
            a.subrange(1, plen) + spec_decode(a2, port)) + spec_decode(b, port));
        }
    }
}

} // verus!

