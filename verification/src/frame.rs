//! How a message travels: four bytes of length, most significant first, then
//! that many bytes of body.

use vstd::prelude::*;

verus! {

/// The longest body that either side takes or sends.
pub const MAX_BODY_BYTES: usize = 65536;

/// The four length bytes of a body of `n` bytes. They hold the length modulo
/// two to the thirty-second.
pub open spec fn prefix_bytes(n: nat) -> Seq<u8> {
    seq![
        (n / 16777216 % 256) as u8,
        (n / 65536 % 256) as u8,
        (n / 256 % 256) as u8,
        (n % 256) as u8,
    ]
}

/// The length that four length bytes announce.
pub open spec fn announced(prefix: Seq<u8>) -> nat {
    (prefix[0] * 16777216 + prefix[1] * 65536 + prefix[2] * 256 + prefix[3]) as nat
}

/// A body on the wire.
pub open spec fn framed(body: Seq<u8>) -> Seq<u8> {
    prefix_bytes(body.len()) + body
}

/// What a reader makes of the announced length: the body to read, or nothing
/// where the body is over the cap.
pub open spec fn accepted(prefix: Seq<u8>) -> Option<nat> {
    if announced(prefix) <= MAX_BODY_BYTES {
        Some(announced(prefix))
    } else {
        None
    }
}

/// The length bytes of a body.
pub fn length_prefix(body: &Vec<u8>) -> (prefix: [u8; 4])
    ensures
        prefix@ == prefix_bytes(body@.len()),
{
    let n: usize = body.len();
    let prefix: [u8; 4] = [
        ((n / 16777216) % 256) as u8,
        ((n / 65536) % 256) as u8,
        ((n / 256) % 256) as u8,
        (n % 256) as u8,
    ];
    assert(prefix@ =~= prefix_bytes(body@.len()));
    prefix
}

/// A body with its length bytes ahead of it.
pub fn frame(body: &Vec<u8>) -> (bytes: Vec<u8>)
    ensures
        bytes@ == framed(body@),
{
    let prefix = length_prefix(body);
    let mut bytes: Vec<u8> = Vec::new();
    bytes.push(prefix[0]);
    bytes.push(prefix[1]);
    bytes.push(prefix[2]);
    bytes.push(prefix[3]);
    assert(bytes@ =~= prefix_bytes(body@.len()));
    bytes.extend_from_slice(body.as_slice());
    bytes
}

/// The length of the body to read after four length bytes; none where it is
/// over the cap.
pub fn accepted_len(prefix: [u8; 4]) -> (r: Option<usize>)
    ensures
        match r {
            Some(n) => accepted(prefix@) == Some(n as nat),
            None => accepted(prefix@) is None,
        },
{
    let high: u32 = prefix[0] as u32 * 16777216 + prefix[1] as u32 * 65536;
    let low: u32 = prefix[2] as u32 * 256 + prefix[3] as u32;
    let n: usize = (high + low) as usize;
    if n > MAX_BODY_BYTES {
        None
    } else {
        Some(n)
    }
}

/// A reader gets back what a writer sent: the length bytes of a frame announce
/// its body, a body within the cap is taken whole, and a longer one, as long as
/// four bytes can announce it, is turned down.
pub proof fn a_frame_reads_back(body: Seq<u8>)
    requires
        body.len() < 0x1_0000_0000,
    ensures
        announced(framed(body).take(4)) == body.len(),
        framed(body).skip(4) == body,
        accepted(framed(body).take(4)) == (if body.len() <= MAX_BODY_BYTES {
            Some(body.len())
        } else {
            None
        }),
{
    assert(framed(body).take(4) =~= prefix_bytes(body.len()));
    assert(framed(body).skip(4) =~= body);
}

/// Different bodies are different on the wire.
pub proof fn frames_are_unambiguous(body1: Seq<u8>, body2: Seq<u8>)
    requires
        framed(body1) == framed(body2),
    ensures
        body1 == body2,
{
    assert(framed(body1).skip(4) =~= body1);
    assert(framed(body2).skip(4) =~= body2);
}

/// The length bytes spell the length in base 256, the most significant byte first,
/// and lengths beyond four bytes wrap around.
pub proof fn length_bytes_are_big_endian(n: nat)
    ensures
        prefix_bytes(n).len() == 4,
        ((prefix_bytes(n)[0] * 256 + prefix_bytes(n)[1]) * 256 + prefix_bytes(n)[2]) * 256
            + prefix_bytes(n)[3] == n % 4294967296,
{
    let a = n / 256;
    let b = a / 256;
    let c = b / 256;
    assert(n / 65536 == b);
    assert(n / 16777216 == c);
    assert(n == c * 16777216 + (b % 256) * 65536 + (a % 256) * 256 + n % 256);
    assert(c == (c / 256) * 256 + c % 256);
    assert(n % 4294967296 == (c % 256) * 16777216 + (b % 256) * 65536 + (a % 256) * 256 + n % 256);
}

/// Four length bytes are read in base 256, the most significant first, and a length
/// is taken exactly when it is no more than 65536.
pub proof fn lengths_up_to_the_cap_are_taken(a: u8, b: u8, c: u8, d: u8)
    ensures
        announced(seq![a, b, c, d]) == ((a * 256 + b) * 256 + c) * 256 + d,
        accepted(seq![a, b, c, d]) is Some <==> ((a * 256 + b) * 256 + c) * 256 + d <= 65536,
        accepted(seq![a, b, c, d]) matches Some(n) ==> n == ((a * 256 + b) * 256 + c) * 256 + d,
{
}

/// A frame is four bytes longer than its body, which follows them untouched.
pub proof fn a_frame_holds_its_body(body: Seq<u8>, i: int)
    ensures
        framed(body).len() == 4 + body.len(),
        0 <= i < body.len() ==> framed(body)[4 + i] == body[i],
        ((framed(body)[0] * 256 + framed(body)[1]) * 256 + framed(body)[2]) * 256 + framed(body)[3]
            == body.len() % 4294967296,
{
    let prefix = prefix_bytes(body.len());
    length_bytes_are_big_endian(body.len());
    assert(framed(body)[0] == prefix[0] && framed(body)[1] == prefix[1] && framed(body)[2]
        == prefix[2] && framed(body)[3] == prefix[3]);
}

} // verus!
