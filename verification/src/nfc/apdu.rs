//! APDU builders and response helpers for NFC tag communication.
use vstd::prelude::*;

verus! {

/// The two status bytes that end a response, when the response holds them.
pub open spec fn spec_status_word(response: Seq<u8>) -> Option<(u8, u8)> {
    if response.len() >= 2 {
        Some((response[response.len() - 2], response[response.len() - 1]))
    } else {
        None
    }
}

/// A response is successful when its status word is `90 00`.
pub open spec fn spec_is_success(response: Seq<u8>) -> bool {
    spec_status_word(response) == Some((0x90u8, 0x00u8))
}

/// The data part of a response: everything but the status word.
pub open spec fn spec_payload(response: Seq<u8>) -> Seq<u8> {
    if response.len() >= 2 {
        response.subrange(0, response.len() - 2)
    } else {
        response
    }
}

/// PC/SC escape command that reads memory of a Type 2 tag (MIFARE Ultralight / NTAG):
/// `FF B0 00 [page] [len]`.
pub fn type2_read_binary(page: u8, len: u8) -> (cmd: Vec<u8>)
    ensures
        cmd@ == seq![0xFFu8, 0xB0u8, 0x00u8, page, len],
{
    let cmd = vec![0xFFu8, 0xB0u8, 0x00u8, page, len];
    assert(cmd@ =~= seq![0xFFu8, 0xB0u8, 0x00u8, page, len]);
    cmd
}

/// Status word (sw1, sw2) taken from the last two bytes of a response.
pub fn parse_sw(response: &[u8]) -> (sw: Option<(u8, u8)>)
    ensures
        sw == spec_status_word(response@),
{
    if response.len() >= 2 {
        let sw2 = response[response.len() - 1];
        let sw1 = response[response.len() - 2];
        Some((sw1, sw2))
    } else {
        None
    }
}

/// True exactly when the status word is `90 00`.
pub fn is_success(response: &[u8]) -> (ok: bool)
    ensures
        ok == spec_is_success(response@),
{
    match parse_sw(response) {
        Some((sw1, sw2)) => sw1 == 0x90 && sw2 == 0x00,
        None => false,
    }
}

/// The response without its status word; a response shorter than two bytes is
/// handed back whole.
pub fn payload(response: &[u8]) -> (data: &[u8])
    ensures
        data@ == spec_payload(response@),
{
    if response.len() >= 2 {
        &response[0..response.len() - 2]
    } else {
        response
    }
}

/// A response of two bytes or more is its payload followed by its status word.
pub proof fn lemma_payload_then_status_word(response: Seq<u8>)
    requires
        response.len() >= 2,
    ensures
        spec_payload(response) + seq![spec_status_word(response).unwrap().0, spec_status_word(response).unwrap().1]
            == response,
{
    assert(spec_payload(response) + seq![spec_status_word(response).unwrap().0, spec_status_word(response).unwrap().1]
        =~= response);
}

} // verus!
