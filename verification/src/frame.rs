//! Frames: a body behind its length, four bytes with the highest first.

use vstd::prelude::*;

verus! {

/// The four bytes of a length, highest first.
pub open spec fn be_bytes(n: nat) -> Seq<u8> {
    seq![
        (n / 0x100_0000) as u8,
        ((n / 0x1_0000) % 0x100) as u8,
        ((n / 0x100) % 0x100) as u8,
        (n % 0x100) as u8,
    ]
}

/// The length that the first four bytes give, highest first.
pub open spec fn be_value(bytes: Seq<u8>) -> nat
    recommends
        bytes.len() >= 4,
{
    (bytes[0] * 0x100_0000 + bytes[1] * 0x1_0000 + bytes[2] * 0x100 + bytes[3]) as nat
}

/// A body as a frame: its length, then the body.
pub open spec fn frame_of(body: Seq<u8>) -> Seq<u8> {
    be_bytes(body.len()) + body
}

/// Whether the bytes are one whole frame: a length, and exactly that many
/// bytes behind it.
pub open spec fn is_frame(bytes: Seq<u8>) -> bool {
    bytes.len() >= 4 && be_value(bytes) == bytes.len() - 4
}

/// What follows the length.
pub open spec fn frame_body(bytes: Seq<u8>) -> Seq<u8> {
    bytes.subrange(4, bytes.len() as int)
}

/// The length read back from its four bytes is the length.
pub proof fn lemma_length_round_trip(n: nat)
    requires
        n <= u32::MAX,
    ensures
        be_bytes(n).len() == 4,
        be_value(be_bytes(n)) == n,
{
}

/// A frame's first four bytes give the number of bytes that follow them,
/// and what follows them is the body.
pub proof fn lemma_frame_round_trip(body: Seq<u8>)
    requires
        body.len() <= u32::MAX,
    ensures
        is_frame(frame_of(body)),
        be_value(frame_of(body).subrange(0, 4)) == frame_of(body).len() - 4,
        frame_body(frame_of(body)) == body,
{
    lemma_length_round_trip(body.len());
    let frame = frame_of(body);
    assert(frame.subrange(0, 4) =~= be_bytes(body.len()));
    assert(frame[0] == be_bytes(body.len())[0]);
    assert(frame[1] == be_bytes(body.len())[1]);
    assert(frame[2] == be_bytes(body.len())[2]);
    assert(frame[3] == be_bytes(body.len())[3]);
    assert(frame_body(frame) =~= body);
}

/// The four bytes that announce a body of the given length.
pub fn length_prefix(len: u32) -> (out: [u8; 4])
    ensures
        out@ == be_bytes(len as nat),
{
    let out = [
        (len / 0x100_0000) as u8,
        ((len / 0x1_0000) % 0x100) as u8,
        ((len / 0x100) % 0x100) as u8,
        (len % 0x100) as u8,
    ];
    assert(out@ =~= be_bytes(len as nat));
    out
}

/// The length of the body that four bytes announce.
pub fn frame_length(prefix: &[u8; 4]) -> (len: u32)
    ensures
        len == be_value(prefix@),
{
    (prefix[0] as u32) * 0x100_0000 + (prefix[1] as u32) * 0x1_0000 + (prefix[2] as u32) * 0x100
        + (prefix[3] as u32)
}

/// A body as a frame.
pub fn frame(body: &[u8]) -> (out: Vec<u8>)
    requires
        body@.len() <= u32::MAX,
    ensures
        out@ == frame_of(body@),
{
    let prefix = length_prefix(body.len() as u32);
    let mut out: Vec<u8> = Vec::new();
    out.push(prefix[0]);
    out.push(prefix[1]);
    out.push(prefix[2]);
    out.push(prefix[3]);
    out.extend_from_slice(body);
    assert(out@ =~= frame_of(body@));
    out
}

/// The body of a whole frame; nothing where the bytes are no whole frame
/// (too few for a length, or not as many behind it as it announces).
pub fn unframe(bytes: &[u8]) -> (out: Option<Vec<u8>>)
    ensures
        match out {
            Some(body) => is_frame(bytes@) && body@ == frame_body(bytes@),
            None => !is_frame(bytes@),
        },
{
    if bytes.len() < 4 {
        return None;
    }
    let prefix = [bytes[0], bytes[1], bytes[2], bytes[3]];
    let announced = frame_length(&prefix);
    if announced as usize != bytes.len() - 4 {
        return None;
    }
    let mut body: Vec<u8> = Vec::new();
    let mut i: usize = 4;
    while i < bytes.len()
        invariant
            4 <= i <= bytes.len(),
            body@ == bytes@.subrange(4, i as int),
        decreases bytes.len() - i,
    {
        body.push(bytes[i]);
        i += 1;
        assert(body@ =~= bytes@.subrange(4, i as int));
    }
    Some(body)
}

} // verus!
