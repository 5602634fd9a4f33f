//! Decisions of the task that inserts an unsafe payload into the execution engine.
//!
//! The task converts the payload envelope into a block, decides whether the block still
//! extends the unsafe chain, sends it with the `engine_newPayload` method that matches the
//! payload version, checks the engine's answer and then asks for a forkchoice update. The
//! engine calls are made by the node; what is decided between them is here.

use vstd::prelude::*;

use crate::primitives::B256;

verus! {

/// What the insert task reads of an L2 block: its hash, number and parent hash.
#[derive(Clone, Copy, Debug)]
pub struct BlockInfo {
    /// The block hash.
    pub hash: B256,
    /// The block number.
    pub number: u64,
    /// The hash of the parent block.
    pub parent_hash: B256,
}

/// Safe and finalized labels delegated by a remote follow source, applied together.
#[derive(Clone, Copy, Debug)]
pub struct DelegatedForkchoiceUpdate {
    /// The delegated safe L2 block.
    pub safe_l2: BlockInfo,
    /// The delegated finalized L2 block number, if available.
    pub finalized_l2_number: Option<u64>,
}

/// The status an execution engine gives a new payload.
#[derive(Clone, Copy, Debug, PartialEq, Eq, Structural)]
pub enum PayloadStatusKind {
    /// The payload was executed and is valid.
    Valid,
    /// The payload is invalid.
    Invalid,
    /// The engine is syncing and could not execute the payload yet.
    Syncing,
    /// The payload was accepted without being executed (it does not extend the canonical
    /// chain).
    Accepted,
}

/// The version of an execution payload.
#[derive(Clone, Copy, Debug, PartialEq, Eq, Structural)]
pub enum PayloadVersion {
    /// Bedrock payloads.
    V1,
    /// Payloads with withdrawals (from Canyon).
    V2,
    /// Payloads with blob fields (from Ecotone).
    V3,
    /// Payloads with execution requests (from Isthmus).
    V4,
}

/// The `engine_newPayload` call that carries a payload.
#[derive(Clone, Copy, Debug, PartialEq, Eq, Structural)]
pub enum NewPayloadCall {
    /// `engine_newPayloadV2`; `withdrawals` tells whether a withdrawals list is sent.
    V2 { withdrawals: bool },
    /// `engine_newPayloadV3` with the parent beacon block root.
    V3,
    /// `engine_newPayloadV4` with the parent beacon block root.
    V4,
}

/// The heads that a successful insertion moves.
#[derive(Clone, Copy, Debug)]
pub struct EngineSyncStateUpdate {
    /// The new unsafe head.
    pub unsafe_head: Option<BlockInfo>,
    /// The new local safe head.
    pub local_safe_head: Option<BlockInfo>,
    /// The new safe head.
    pub safe_head: Option<BlockInfo>,
}

/// The failure of an insertion after the engine answered.
#[derive(Clone, Copy, Debug, PartialEq, Eq, Structural)]
pub enum InsertTaskError {
    /// The engine answered with a status other than `Valid` or `Syncing`.
    UnexpectedPayloadStatus(PayloadStatusKind),
}

/// Whether a payload that becomes `new_ref` should be inserted given the current unsafe head:
/// a payload derived from safe data always is; an unsafe one is skipped when it is the
/// unsafe head already, when it is not above the unsafe head, or when it is the next block
/// but does not build on the unsafe head.
pub open spec fn spec_is_unsafe_payload_applicable(
    is_payload_safe: bool,
    unsafe_head: BlockInfo,
    new_ref: BlockInfo,
) -> bool {
    if is_payload_safe {
        true
    } else if new_ref.hash@ == unsafe_head.hash@ {
        false
    } else if new_ref.number <= unsafe_head.number {
        false
    } else if new_ref.number == unsafe_head.number + 1 && new_ref.parent_hash@ != unsafe_head.hash@ {
        false
    } else {
        true
    }
}

/// The decisions of one insert task.
#[derive(Clone, Copy, Debug)]
pub struct InsertTask {
    /// Whether the payload was derived from safe (L1-confirmed) data.
    pub is_payload_safe: bool,
    /// The version of the payload.
    pub version: PayloadVersion,
}

impl InsertTask {
    /// The decisions for a payload of `version`, derived from safe data when
    /// `is_attributes_derived`.
    pub fn new(version: PayloadVersion, is_attributes_derived: bool) -> (r: InsertTask)
        ensures
            r.version == version,
            r.is_payload_safe == is_attributes_derived,
    {
        InsertTask { is_payload_safe: is_attributes_derived, version }
    }

    /// Whether the engine's answer to `engine_newPayload` lets the insertion go on: `Valid`
    /// and `Syncing` do.
    pub fn check_new_payload_status(&self, status: PayloadStatusKind) -> (r: bool)
        ensures
            r == (status == PayloadStatusKind::Valid || status == PayloadStatusKind::Syncing),
    {
        match status {
            PayloadStatusKind::Valid | PayloadStatusKind::Syncing => true,
            PayloadStatusKind::Invalid | PayloadStatusKind::Accepted => false,
        }
    }

    /// Whether the payload, which becomes `new_unsafe_ref`, should be inserted on top of the
    /// current `unsafe_head`.
    pub fn is_unsafe_payload_applicable(&self, unsafe_head: &BlockInfo, new_unsafe_ref: &BlockInfo) -> (r:
        bool)
        ensures
            r == spec_is_unsafe_payload_applicable(
                self.is_payload_safe,
                *unsafe_head,
                *new_unsafe_ref,
            ),
    {
        if self.is_payload_safe {
            return true;
        }
        if new_unsafe_ref.hash.same(&unsafe_head.hash) {
            return false;
        }
        if new_unsafe_ref.number <= unsafe_head.number {
            return false;
        }
        if new_unsafe_ref.number == unsafe_head.number.saturating_add(1)
            && !new_unsafe_ref.parent_hash.same(&unsafe_head.hash) {
            return false;
        }
        true
    }

    /// The `engine_newPayload` call for the payload: V1 and V2 payloads go through
    /// `engine_newPayloadV2` (without and with withdrawals), V3 and V4 through their own
    /// methods.
    pub fn new_payload_call(&self) -> (r: NewPayloadCall)
        ensures
            r == match self.version {
                PayloadVersion::V1 => NewPayloadCall::V2 { withdrawals: false },
                PayloadVersion::V2 => NewPayloadCall::V2 { withdrawals: true },
                PayloadVersion::V3 => NewPayloadCall::V3,
                PayloadVersion::V4 => NewPayloadCall::V4,
            },
    {
        match self.version {
            PayloadVersion::V1 => NewPayloadCall::V2 { withdrawals: false },
            PayloadVersion::V2 => NewPayloadCall::V2 { withdrawals: true },
            PayloadVersion::V3 => NewPayloadCall::V3,
            PayloadVersion::V4 => NewPayloadCall::V4,
        }
    }

    /// The heads that inserting `new_unsafe_ref` moves: the unsafe head always, the local safe
    /// and safe heads when the payload was derived from safe data.
    pub fn sync_update(&self, new_unsafe_ref: BlockInfo) -> (r: EngineSyncStateUpdate)
        ensures
            r.unsafe_head == Some(new_unsafe_ref),
            r.local_safe_head == (if self.is_payload_safe {
                Some(new_unsafe_ref)
            } else {
                None::<BlockInfo>
            }),
            r.safe_head == r.local_safe_head,
    {
        let safe = if self.is_payload_safe {
            Some(new_unsafe_ref)
        } else {
            None
        };
        EngineSyncStateUpdate { unsafe_head: Some(new_unsafe_ref), local_safe_head: safe, safe_head: safe }
    }

    /// What follows the engine's answer `status` to the payload that becomes `new_unsafe_ref`:
    /// the forkchoice update to request, or the failure for an unexpected status.
    pub fn on_new_payload_status(&self, status: PayloadStatusKind, new_unsafe_ref: BlockInfo) -> (r:
        Result<EngineSyncStateUpdate, InsertTaskError>)
        ensures
            (status == PayloadStatusKind::Valid || status == PayloadStatusKind::Syncing) ==> (
            r matches Ok(u) && u.unsafe_head == Some(new_unsafe_ref) && u.local_safe_head == (
            if self.is_payload_safe {
                Some(new_unsafe_ref)
            } else {
                None::<BlockInfo>
            }) && u.safe_head == u.local_safe_head),
            !(status == PayloadStatusKind::Valid || status == PayloadStatusKind::Syncing) ==> r
                == Err::<EngineSyncStateUpdate, InsertTaskError>(
                InsertTaskError::UnexpectedPayloadStatus(status),
            ),
    {
        if !self.check_new_payload_status(status) {
            return Err(InsertTaskError::UnexpectedPayloadStatus(status));
        }
        Ok(self.sync_update(new_unsafe_ref))
    }
}

/// Every unsafe payload that the task inserts is above the unsafe head and differs from it,
/// and when it is the next block it builds on the unsafe head.
pub proof fn lemma_applicable_unsafe_payload_extends_head(unsafe_head: BlockInfo, new_ref: BlockInfo)
    requires
        spec_is_unsafe_payload_applicable(false, unsafe_head, new_ref),
    ensures
        new_ref.number > unsafe_head.number,
        new_ref.hash@ != unsafe_head.hash@,
        new_ref.number == unsafe_head.number + 1 ==> new_ref.parent_hash@ == unsafe_head.hash@,
{
}

} // verus!
