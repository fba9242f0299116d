//! The sandbox side of the bridge: typed calls that check their arguments
//! locally, encode them, cross the boundary once and interpret the answer.
use vstd::prelude::*;
use crate::codec::{scalars_wf, SCALAR_LEN};
use crate::dispatch::{create_outcome_of, outcome_of, output_bytes, CallOutcome, GroupError};
use crate::error::{is_known_kind, lemma_status_round_trip, result_of_status, PalletMerkleExtError};
use crate::messages::{
    check_request_shape, decode_create_result, decode_info, enc_add_args, enc_create_args,
    enc_create_result, enc_info, enc_request,
    encode_add_args, encode_create_args, encode_request, lemma_create_result_injective,
    lemma_info_injective, request_shape_ok, request_wf,
    CustomPostDispatchInfo, GroupDescriptor, MembershipProofRequest,
};
use crate::registry::{ADD_ELEMENTS_ID, CREATE_GROUP_ID, VERIFY_GROUP_ID};

verus! {

/// The sandbox's one way out: an extension call by identifier with an
/// encoded argument buffer, answered by a status code and an output buffer.
/// The host's answer is a function of the environment's state, the
/// identifier and the argument bytes.
pub trait MerkleExtensionTrait: Sized {
    /// The status and output bytes the host answers with in this state.
    spec fn answer(&self, func_id: u32, input: Seq<u8>) -> (u32, Seq<u8>);

    /// The environment after one extension call in this state.
    spec fn after(&self, func_id: u32, input: Seq<u8>) -> Self;

    fn call_extension(&mut self, func_id: u32, input: &Vec<u8>) -> (r: (u32, Vec<u8>))
        ensures
            r.0 == old(self).answer(func_id, input@).0,
            r.1@ == old(self).answer(func_id, input@).1,
            *final(self) == old(self).after(func_id, input@),
    ;
}

/// What the caller of `create_group` gets for a status and an output buffer:
/// on status `0` the decoded result, or `EncodingFailed` where the buffer
/// holds none; on any other status its error.
pub open spec fn create_group_answer(
    status: u32,
    output: Seq<u8>,
    r: Result<(GroupDescriptor, CustomPostDispatchInfo), PalletMerkleExtError>,
) -> bool {
    if status != 0 {
        r == Err::<(GroupDescriptor, CustomPostDispatchInfo), _>(result_of_status(status)->Err_0)
    } else if exists|g: GroupDescriptor, i: CustomPostDispatchInfo| enc_create_result(g, i) == output {
        r matches Ok((g, i)) && enc_create_result(g, i) == output
    } else {
        r == Err::<(GroupDescriptor, CustomPostDispatchInfo), _>(PalletMerkleExtError::EncodingFailed)
    }
}

/// What the caller of `add_elements` or `verify_group` gets for a status
/// and an output buffer.
pub open spec fn update_answer(
    status: u32,
    output: Seq<u8>,
    r: Result<CustomPostDispatchInfo, PalletMerkleExtError>,
) -> bool {
    if status != 0 {
        r == Err::<CustomPostDispatchInfo, _>(result_of_status(status)->Err_0)
    } else if exists|i: CustomPostDispatchInfo| enc_info(i) == output {
        r matches Ok(i) && enc_info(i) == output
    } else {
        r == Err::<CustomPostDispatchInfo, _>(PalletMerkleExtError::EncodingFailed)
    }
}

/// Member commitments that pass the local check: at least one, each a
/// scalar, few enough for the wire format.
pub open spec fn members_valid(m: Seq<Vec<u8>>) -> bool {
    m.len() > 0 && m.len() <= u32::MAX && scalars_wf(m)
}

/// The sandbox-side client. It holds no state between calls.
pub struct MerkleExtension;

impl MerkleExtension {
    pub fn new() -> (r: Self) {
        MerkleExtension
    }

    /// Interprets the answer to `create_group`.
    pub fn finish_create_group(status: u32, output: &Vec<u8>) -> (r: Result<(GroupDescriptor, CustomPostDispatchInfo), PalletMerkleExtError>)
        ensures
            create_group_answer(status, output@, r),
    {
        match PalletMerkleExtError::from_status_code(status) {
            Err(e) => Err(e),
            Ok(()) => decode_create_result(output),
        }
    }

    /// Interprets the answer to `add_elements` or `verify_group`.
    pub fn finish_update(status: u32, output: &Vec<u8>) -> (r: Result<CustomPostDispatchInfo, PalletMerkleExtError>)
        ensures
            update_answer(status, output@, r),
    {
        match PalletMerkleExtError::from_status_code(status) {
            Err(e) => Err(e),
            Ok(()) => decode_info(output),
        }
    }

    /// Asks the host to create a group.
    pub fn create_group<E: MerkleExtensionTrait>(&self, env: &mut E, manager_restricted: bool, depth: Option<u8>)
        -> (r: Result<(GroupDescriptor, CustomPostDispatchInfo), PalletMerkleExtError>)
        ensures
            create_group_answer(
                old(env).answer(CREATE_GROUP_ID, enc_create_args(manager_restricted, depth)).0,
                old(env).answer(CREATE_GROUP_ID, enc_create_args(manager_restricted, depth)).1,
                r,
            ),
            *final(env) == old(env).after(CREATE_GROUP_ID, enc_create_args(manager_restricted, depth)),
    {
        let input = encode_create_args(manager_restricted, depth);
        let (status, output) = env.call_extension(CREATE_GROUP_ID, &input);
        let r = Self::finish_create_group(status, &output);
        r
    }

    /// Asks the host to insert `members` into group `group_id`. Members that
    /// fail the local check are refused with `InvalidCall` and the
    /// environment is left untouched.
    pub fn add_elements<E: MerkleExtensionTrait>(&self, env: &mut E, group_id: u32, members: &Vec<Vec<u8>>)
        -> (r: Result<CustomPostDispatchInfo, PalletMerkleExtError>)
        ensures
            !members_valid(members@) ==> r == Err::<CustomPostDispatchInfo, _>(PalletMerkleExtError::InvalidCall)
                && *final(env) == *old(env),
            members_valid(members@) ==> update_answer(
                old(env).answer(ADD_ELEMENTS_ID, enc_add_args(group_id, members@)).0,
                old(env).answer(ADD_ELEMENTS_ID, enc_add_args(group_id, members@)).1,
                r,
            ) && *final(env) == old(env).after(ADD_ELEMENTS_ID, enc_add_args(group_id, members@)),
    {
        if members.len() == 0 || !all_scalars(members) {
            return Err(PalletMerkleExtError::InvalidCall);
        }
        let input = encode_add_args(group_id, members);
        let (status, output) = env.call_extension(ADD_ELEMENTS_ID, &input);
        let r = Self::finish_update(status, &output);
        r
    }

    /// Asks the host to verify a membership proof. A request that the wire
    /// format cannot carry, or that fails the shape check, is refused with
    /// `InvalidCall` and the environment is left untouched.
    pub fn verify_group<E: MerkleExtensionTrait>(&self, env: &mut E, request: &MembershipProofRequest)
        -> (r: Result<CustomPostDispatchInfo, PalletMerkleExtError>)
        ensures
            !(request_wf(*request) && request_shape_ok(*request)) ==> r == Err::<CustomPostDispatchInfo, _>(PalletMerkleExtError::InvalidCall)
                && *final(env) == *old(env),
            request_wf(*request) && request_shape_ok(*request) ==> update_answer(
                old(env).answer(VERIFY_GROUP_ID, enc_request(*request)).0,
                old(env).answer(VERIFY_GROUP_ID, enc_request(*request)).1,
                r,
            ) && *final(env) == old(env).after(VERIFY_GROUP_ID, enc_request(*request)),
    {
        if !check_request_shape(request) || !Self::carriable(request) {
            return Err(PalletMerkleExtError::InvalidCall);
        }
        let input = encode_request(request);
        let (status, output) = env.call_extension(VERIFY_GROUP_ID, &input);
        let r = Self::finish_update(status, &output);
        r
    }

    fn carriable(r: &MembershipProofRequest) -> (ok: bool)
        ensures
            ok == request_wf(*r),
    {
        r.cached_root.len() == SCALAR_LEN && r.nullifier_hash.len() == SCALAR_LEN
            && r.recipient.len() == SCALAR_LEN && r.relayer.len() == SCALAR_LEN
            && r.proof_bytes.len() <= u32::MAX as usize && all_scalars(&r.commitments)
            && all_scalars(&r.leaf_index_commitments) && all_scalars(&r.proof_commitments)
    }
}

/// What the host answers for the outcome of `add_elements` or
/// `verify_group` reaches the caller unchanged: the accounting metadata on
/// success, and on a refusal the operation's own failure kind, never a
/// generic one.
pub proof fn lemma_update_reaches_caller(
    result: Result<CustomPostDispatchInfo, GroupError>,
    failure: PalletMerkleExtError,
    out: CallOutcome,
    r: Result<CustomPostDispatchInfo, PalletMerkleExtError>,
)
    requires
        is_known_kind(failure),
        outcome_of(result, failure, out),
        update_answer(out.status, output_bytes(out), r),
    ensures
        r == match result {
            Ok(i) => Ok::<_, PalletMerkleExtError>(i),
            Err(_) => Err(failure),
        },
{
    match result {
        Ok(i) => {
            assert(enc_info(i) == output_bytes(out));
            lemma_info_injective(r->Ok_0, i);
        },
        Err(_) => {
            lemma_status_round_trip(failure);
        },
    }
}

/// What the host answers for the outcome of `create_group` reaches the
/// caller unchanged: the new group and the accounting metadata on success,
/// and `GroupCreationFailed` on a refusal.
pub proof fn lemma_create_reaches_caller(
    result: Result<(GroupDescriptor, CustomPostDispatchInfo), GroupError>,
    out: CallOutcome,
    r: Result<(GroupDescriptor, CustomPostDispatchInfo), PalletMerkleExtError>,
)
    requires
        create_outcome_of(result, out),
        create_group_answer(out.status, output_bytes(out), r),
    ensures
        r == match result {
            Ok(x) => Ok::<_, PalletMerkleExtError>(x),
            Err(_) => Err(PalletMerkleExtError::GroupCreationFailed),
        },
{
    match result {
        Ok((g, i)) => {
            assert(enc_create_result(g, i) == output_bytes(out));
            lemma_create_result_injective(r->Ok_0.0, r->Ok_0.1, g, i);
        },
        Err(_) => {
            lemma_status_round_trip(PalletMerkleExtError::GroupCreationFailed);
        },
    }
}

/// Whether `s` is a sequence of scalars that the wire format can carry.
fn all_scalars(s: &Vec<Vec<u8>>) -> (ok: bool)
    ensures
        ok == (scalars_wf(s@) && s@.len() <= u32::MAX),
{
    if s.len() > u32::MAX as usize {
        return false;
    }
    let mut i: usize = 0;
    while i < s.len()
        invariant
            i <= s@.len(),
            forall|k: int| 0 <= k < i ==> (#[trigger] s@[k])@.len() == SCALAR_LEN,
        decreases s@.len() - i,
    {
        if s[i].len() != SCALAR_LEN {
            return false;
        }
        i += 1;
    }
    true
}

} // verus!
