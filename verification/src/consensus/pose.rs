//! Proof of Service: a masternode answers a challenge by signing the challenge with its
//! operator key, in time, over the challenged block's hash.
use vstd::prelude::*;
use crate::bytes::bytes_eq;
use crate::consensus::chain::Blockchain;
use crate::consensus::chain_checks::stored_height_or_zero;
use crate::consensus::error::{message, ConsensusError, ErrorModel};
use crate::crypto::{decode_public_key, decode_signature, ed25519_point_decompresses, ed25519_verifies, ed25519_verify, signature_decodes};
use crate::types::{OutPoint, Transaction};

verus! {

/// A Proof-of-Service challenge: the block whose hash the masternode must sign, the
/// masternode challenged, and the height the challenge was issued at, with the
/// challenger's signature.
pub struct PoSeChallenge {
    pub nonce: u64,
    pub challenge_block_hash: [u8; 32],
    pub challenger_masternode_id: OutPoint,
    pub challenge_generation_block_height: u64,
    pub signature: Vec<u8>,
}

/// A masternode's answer to a challenge: its signature.
pub struct PoSeResponse {
    pub target_masternode_id: OutPoint,
    pub signed_block_hash: Vec<u8>,
}

/// Why a response to a challenge is refused, given the bytes the challenge encodes to, if
/// it is: the challenged masternode must be registered with a 32-byte operator key, the
/// response must be that key's valid signature of the challenge, the chain height may not
/// be past the challenge period, and the signed bytes must be the challenged block's hash.
pub open spec fn pose_response_error(
    c: Blockchain,
    challenge: PoSeChallenge,
    response: PoSeResponse,
    challenge_message: Seq<u8>,
) -> Option<ErrorModel> {
    let id = challenge.challenger_masternode_id;
    let entries = c.masternode_list.entries();
    let sig = response.signed_block_hash@;
    if !entries.dom().contains(id) {
        Some(ErrorModel::MasternodeError("Target masternode not found."@))
    } else if entries[id].0.len() != 32 {
        Some(ErrorModel::Internal("Invalid operator public key length"@))
    } else if !(ed25519_point_decompresses(entries[id].0) && signature_decodes(sig)
        && ed25519_verifies(entries[id].0, challenge_message, sig)) {
        Some(ErrorModel::InvalidPoSeResponse("Invalid PoSe response signature"@))
    } else if stored_height_or_zero(&c) > challenge.challenge_generation_block_height + c.params.pose_challenge_period_blocks {
        Some(ErrorModel::PoSeChallengeExpired("Challenge expired"@))
    } else if sig != challenge.challenge_block_hash@ {
        Some(ErrorModel::InvalidPoSeResponse("Incorrect block hash in PoSe response"@))
    } else {
        None
    }
}

/// A response is never accepted: only a 64-byte signature passes the signature check, and
/// the signed bytes are then compared with a 32-byte block hash.
pub proof fn law_pose_response_never_accepted(
    c: Blockchain,
    challenge: PoSeChallenge,
    response: PoSeResponse,
    challenge_message: Seq<u8>,
)
    ensures
        pose_response_error(c, challenge, response, challenge_message) is Some,
{
}

impl Blockchain {
    /// Checks a masternode's response to a Proof-of-Service challenge, given the bytes the
    /// challenge encodes to, as `pose_response_error` states; the chain is left as it is.
    pub fn process_pose_response(
        &mut self,
        challenge: &PoSeChallenge,
        response: &PoSeResponse,
        challenge_message: &[u8],
    ) -> (r: Result<Option<Transaction>, ConsensusError>)
        requires
            challenge.challenge_generation_block_height + old(self).params.pose_challenge_period_blocks <= u64::MAX,
        ensures
            *final(self) == *old(self),
            pose_response_error(*old(self), *challenge, *response, challenge_message@) matches Some(m)
                ==> (r matches Err(e) && e@ == m),
            pose_response_error(*old(self), *challenge, *response, challenge_message@) is None
                ==> r == Ok::<Option<Transaction>, ConsensusError>(None),
    {
        let key = match self.masternode_list.operator_key(&challenge.challenger_masternode_id) {
            Some(k) => k,
            None => {
                return Err(ConsensusError::MasternodeError(message("Target masternode not found.")));
            },
        };
        if key.len() != 32 {
            return Err(ConsensusError::Internal(message("Invalid operator public key length")));
        }
        let verified = match decode_public_key(key.as_slice()) {
            Some(public_key) => match decode_signature(response.signed_block_hash.as_slice()) {
                Some(signature) => ed25519_verify(&public_key, challenge_message, &signature),
                None => false,
            },
            None => false,
        };
        if !verified {
            return Err(ConsensusError::InvalidPoSeResponse(message("Invalid PoSe response signature")));
        }
        let current_height = match self.state.get_current_block_height() {
            Ok(h) => h,
            Err(e) => {
                return Err(e);
            },
        };
        if current_height > challenge.challenge_generation_block_height + self.params.pose_challenge_period_blocks {
            return Err(ConsensusError::PoSeChallengeExpired(message("Challenge expired")));
        }
        if !bytes_eq(response.signed_block_hash.as_slice(), challenge.challenge_block_hash.as_slice()) {
            return Err(ConsensusError::InvalidPoSeResponse(message("Incorrect block hash in PoSe response")));
        }
        Ok(None)
    }
}

} // verus!
