//! The map-enter exchange with the client.

use vstd::prelude::*;

verus! {

/// The little-endian 32-bit number in bytes `at..at + 4` of `d`.
pub open spec fn spec_u32_at(d: Seq<u8>, at: int) -> int {
    d[at] + d[at + 1] * 256 + d[at + 2] * 65536 + d[at + 3] * 16777216
}

/// An enter request: the account, the character and the login token's bytes.
pub struct EnterRequest {
    pub account_id: u32,
    pub char_id: u32,
    pub token: Vec<u8>,
}

/// Reads an enter request body: the account id and the character id, each
/// 4 bytes little-endian, then at most 32 bytes of token; none when the body
/// is shorter than 8 bytes.
pub fn parse_enter_request(data: &[u8]) -> (r: Option<EnterRequest>)
    ensures
        data@.len() < 8 <==> r is None,
        r matches Some(q) ==> {
            &&& q.account_id == spec_u32_at(data@, 0)
            &&& q.char_id == spec_u32_at(data@, 4)
            &&& q.token@ == data@.subrange(8, if data@.len() - 8 < 32 { data@.len() as int } else { 40 })
        },
{
    if data.len() < 8 {
        return None;
    }
    let account_id: u32 = data[0] as u32 + (data[1] as u32) * 256 + (data[2] as u32) * 65536 + (data[3] as u32) * 16777216;
    let char_id: u32 = data[4] as u32 + (data[5] as u32) * 256 + (data[6] as u32) * 65536 + (data[7] as u32) * 16777216;
    let end: usize = if data.len() - 8 < 32 { data.len() } else { 40 };
    let mut token: Vec<u8> = Vec::new();
    let mut i: usize = 8;
    while i < end
        invariant
            8 <= i <= end <= data@.len(),
            token@ == data@.subrange(8, i as int),
        decreases end - i,
    {
        token.push(data[i]);
        assert(data@.subrange(8, i + 1) =~= data@.subrange(8, i as int).push(data@[i as int]));
        i = i + 1;
    }
    Some(EnterRequest { account_id, char_id, token })
}

/// The answer that lets a player in: the bytes `2D D3 00 00`.
pub fn enter_accept_packet() -> (pkt: Vec<u8>)
    ensures
        pkt@ == seq![0x2Du8, 0xD3u8, 0u8, 0u8],
{
    let mut pkt: Vec<u8> = Vec::new();
    pkt.push(0x2D);
    pkt.push(0xD3);
    pkt.push(0);
    pkt.push(0);
    assert(pkt@ =~= seq![0x2Du8, 0xD3u8, 0u8, 0u8]);
    pkt
}

} // verus!
