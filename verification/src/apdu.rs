use crate::types::{TransmitResult, TransmitResultView};
use vstd::prelude::*;

verus! {

/// Status byte one of "more bytes are available".
pub const SW1_MORE_DATA: u8 = 0x61;

/// Status byte one of unconditional success.
pub const SW1_SUCCESS: u8 = 0x90;

/// The most bytes that one GET RESPONSE can ask for: its length field is a
/// single byte.
pub const MAX_LE: usize = 255;

/// A response carries a status word when it has at least two bytes.
pub open spec fn has_status(response: Seq<u8>) -> bool {
    response.len() >= 2
}

/// The body of a response: all but its last two bytes. A response too short
/// to hold a status word has no body.
pub open spec fn body_of(response: Seq<u8>) -> Seq<u8> {
    if has_status(response) {
        response.subrange(0, response.len() - 2)
    } else {
        Seq::empty()
    }
}

/// The first status byte: the last but one byte of the response, or zero
/// where the response is too short.
pub open spec fn sw1_of(response: Seq<u8>) -> u8 {
    if has_status(response) {
        response[response.len() - 2]
    } else {
        0
    }
}

/// The second status byte: the last byte of the response, or zero where the
/// response is too short.
pub open spec fn sw2_of(response: Seq<u8>) -> u8 {
    if has_status(response) {
        response[response.len() - 1]
    } else {
        0
    }
}

/// A raw response taken apart into body and status word.
pub open spec fn split(response: Seq<u8>) -> TransmitResultView {
    TransmitResultView {
        data: body_of(response),
        sw1: sw1_of(response),
        sw2: sw2_of(response),
    }
}

/// The length byte of a GET RESPONSE for `remaining` outstanding bytes.
pub open spec fn le_for(remaining: nat) -> u8 {
    if remaining <= 255 {
        remaining as u8
    } else {
        255
    }
}

/// The GET RESPONSE command for `remaining` outstanding bytes.
pub open spec fn get_response(remaining: nat) -> Seq<u8> {
    seq![0x00u8, 0xC0u8, 0x00u8, 0x00u8, le_for(remaining)]
}

/// The buffer size that the reply to that GET RESPONSE needs: the bytes asked
/// for and a status word.
pub open spec fn get_response_capacity(remaining: nat) -> nat {
    (le_for(remaining) + 2) as nat
}

/// Appends the first `n` bytes of `source` to `target`.
pub fn append_prefix(target: &mut Vec<u8>, source: &[u8], n: usize)
    requires
        n <= source@.len(),
    ensures
        final(target)@ == old(target)@ + source@.subrange(0, n as int),
{
    let mut i: usize = 0;
    while i < n
        invariant
            i <= n <= source@.len(),
            target@ == old(target)@ + source@.subrange(0, i as int),
        decreases n - i,
    {
        target.push(source[i]);
        i += 1;
        assert(target@ =~= old(target)@ + source@.subrange(0, i as int));
    }
}

/// Takes a raw response apart: the last two bytes are the status word, all
/// before them the body. A response of fewer than two bytes yields an empty
/// body and the status word `00 00`.
pub fn split_response(response: &[u8]) -> (r: TransmitResult)
    ensures
        r@ == split(response@),
        has_status(response@) ==> r.data@ + seq![r.sw1, r.sw2] == response@,
        !has_status(response@) ==> r.data@.len() == 0 && r.sw1 == 0 && r.sw2 == 0,
{
    let len = response.len();
    let mut data: Vec<u8> = Vec::new();
    if len >= 2 {
        append_prefix(&mut data, response, len - 2);
        assert(data@ =~= body_of(response@));
        assert(data@ + seq![response@[len - 2], response@[len - 1]] =~= response@);
        TransmitResult { data, sw1: response[len - 2], sw2: response[len - 1] }
    } else {
        TransmitResult { data, sw1: 0, sw2: 0 }
    }
}

/// Builds the GET RESPONSE command `00 C0 00 00 Le` for `remaining`
/// outstanding bytes, with `Le` capped at 255.
pub fn get_response_command(remaining: usize) -> (command: Vec<u8>)
    ensures
        command@ == get_response(remaining as nat),
        command@.len() == 5,
        command@[4] as nat == if remaining <= 255 { remaining as nat } else { 255 },
{
    let le: u8 = if remaining <= MAX_LE { remaining as u8 } else { 255u8 };
    let mut command: Vec<u8> = Vec::new();
    command.push(0x00u8);
    command.push(0xC0u8);
    command.push(0x00u8);
    command.push(0x00u8);
    command.push(le);
    assert(command@ =~= get_response(remaining as nat));
    command
}

} // verus!
