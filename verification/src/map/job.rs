//! The job change exchange with the client.

use vstd::prelude::*;
use crate::bytes::{push_u16_le, spec_u16_le};

verus! {

/// The packet id of the client's job change request.
pub const CZ_REQ_CHANGEJOB: u16 = 0x019D;

/// The packet id of the server's job change answer.
pub const ZC_ACK_CHANGEJOB: u16 = 0x019E;

/// The answer to a job change: its length (6), its packet id and the job
/// the player has now, each a little-endian 16-bit number.
pub open spec fn spec_ack_changejob(job_id: u16) -> Seq<u8> {
    spec_u16_le(6) + spec_u16_le(ZC_ACK_CHANGEJOB) + spec_u16_le(job_id)
}

/// Builds the answer to a job change.
pub fn build_ack_changejob(job_id: u16) -> (pkt: Vec<u8>)
    ensures
        pkt@ == spec_ack_changejob(job_id),
{
    let mut pkt: Vec<u8> = Vec::new();
    push_u16_le(&mut pkt, 6);
    push_u16_le(&mut pkt, ZC_ACK_CHANGEJOB);
    push_u16_le(&mut pkt, job_id);
    pkt
}

/// The job a request body asks for: its first two bytes, little-endian;
/// none when the body is shorter.
pub fn parse_job_change_request(data: &[u8]) -> (r: Option<u16>)
    ensures
        data@.len() < 2 ==> r is None,
        data@.len() >= 2 ==> r == Some((data@[0] as int + data@[1] as int * 256) as u16),
{
    if data.len() < 2 {
        return None;
    }
    Some(data[0] as u16 + (data[1] as u16) * 256)
}

/// The answer to a request for `target_job` from a player of `current_job`:
/// the new job when the change is allowed, else the job unchanged.
pub fn job_change_ack(current_job: u16, target_job: u16, allowed: bool) -> (pkt: Vec<u8>)
    ensures
        pkt@ == spec_ack_changejob(if allowed { target_job } else { current_job }),
{
    if allowed {
        build_ack_changejob(target_job)
    } else {
        build_ack_changejob(current_job)
    }
}

} // verus!
