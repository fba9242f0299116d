//! The host side of the bridge: decodes a call, hands it to the group
//! service and turns the outcome into a status code and an output buffer.
use vstd::prelude::*;
use crate::codec::scalar_views;
use crate::error::{status_of, PalletMerkleExtError};
use crate::messages::{
    check_request_shape, decode_add_args, decode_create_args, decode_request, enc_add_args,
    enc_create_args, enc_create_result, enc_info, enc_request, encode_create_result, encode_info,
    request_shape_ok, request_view, request_wf, same_request, RequestView, scalars_ok, CustomPostDispatchInfo,
    GroupDescriptor, MembershipProofRequest,
};
use crate::registry::{operation_spec, Operation};

verus! {

/// Why the group service refused an operation; its own reason code.
#[derive(Debug, Clone, Copy, PartialEq, Eq, Structural)]
pub struct GroupError {
    pub reason: u32,
}

/// The operations of the group service that the dispatcher relies on. The
/// Merkle storage and the proof system stand behind it. Each answer is a
/// function of the service's state and the arguments it is given.
pub trait Group: Sized {
    /// What `create_group` answers in this state.
    spec fn create_answer(&self, requester: Seq<u8>, manager_restricted: bool, depth: Option<u8>)
        -> Result<(GroupDescriptor, CustomPostDispatchInfo), GroupError>;

    /// What `add_members` answers in this state.
    spec fn add_answer(&self, requester: Seq<u8>, group_id: u32, members: Seq<Seq<u8>>)
        -> Result<CustomPostDispatchInfo, GroupError>;

    /// What `verify_membership` answers in this state.
    spec fn verify_answer(&self, request: RequestView) -> Result<CustomPostDispatchInfo, GroupError>;

    /// The service after `create_group` in this state.
    spec fn after_create(&self, requester: Seq<u8>, manager_restricted: bool, depth: Option<u8>) -> Self;

    /// The service after `add_members` in this state.
    spec fn after_add(&self, requester: Seq<u8>, group_id: u32, members: Seq<Seq<u8>>) -> Self;

    /// The service after `verify_membership` in this state.
    spec fn after_verify(&self, request: RequestView) -> Self;

    fn create_group(&mut self, requester: &Vec<u8>, manager_restricted: bool, depth: Option<u8>)
        -> (r: Result<(GroupDescriptor, CustomPostDispatchInfo), GroupError>)
        ensures
            r == old(self).create_answer(requester@, manager_restricted, depth),
            *final(self) == old(self).after_create(requester@, manager_restricted, depth),
    ;

    fn add_members(&mut self, requester: &Vec<u8>, group_id: u32, members: &Vec<Vec<u8>>)
        -> (r: Result<CustomPostDispatchInfo, GroupError>)
        ensures
            r == old(self).add_answer(requester@, group_id, scalar_views(members@)),
            *final(self) == old(self).after_add(requester@, group_id, scalar_views(members@)),
    ;

    fn verify_membership(&mut self, request: &MembershipProofRequest)
        -> (r: Result<CustomPostDispatchInfo, GroupError>)
        ensures
            r == old(self).verify_answer(request_view(*request)),
            *final(self) == old(self).after_verify(request_view(*request)),
    ;
}

/// A decoded call.
#[derive(Debug, Clone)]
pub enum Request {
    CreateGroup { manager_restricted: bool, depth: Option<u8> },
    AddMembers { group_id: u32, members: Vec<Vec<u8>> },
    VerifyMembership(MembershipProofRequest),
}

/// The answer to one call: a status code, and an output buffer on success.
#[derive(Debug, Clone)]
pub struct CallOutcome {
    pub status: u32,
    pub output: Option<Vec<u8>>,
}

/// Member commitments that the host accepts: at least one, each a scalar.
pub open spec fn members_ok(m: Seq<Vec<u8>>) -> bool {
    scalars_ok(m) && m.len() > 0
}

/// The failure of the call, if `input` does not make a well-formed call of
/// `func_id`: an unknown identifier, a buffer that holds no encoding of the
/// operation's arguments, or arguments that fail the shape check.
pub open spec fn call_error(func_id: u32, input: Seq<u8>) -> Option<PalletMerkleExtError> {
    match operation_spec(func_id) {
        None => Some(PalletMerkleExtError::UnknownOperation),
        Some(Operation::CreateGroup) => {
            if exists|m: bool, d: Option<u8>| enc_create_args(m, d) == input {
                None
            } else {
                Some(PalletMerkleExtError::EncodingFailed)
            }
        },
        Some(Operation::AddElements) => {
            if !(exists|g: u32, m: Seq<Vec<u8>>| scalars_ok(m) && enc_add_args(g, m) == input) {
                Some(PalletMerkleExtError::EncodingFailed)
            } else if forall|g: u32, m: Seq<Vec<u8>>|
                scalars_ok(m) && #[trigger] enc_add_args(g, m) == input ==> m.len() == 0 {
                Some(PalletMerkleExtError::InvalidCall)
            } else {
                None
            }
        },
        Some(Operation::VerifyGroup) => {
            if !(exists|v: MembershipProofRequest| request_wf(v) && enc_request(v) == input) {
                Some(PalletMerkleExtError::EncodingFailed)
            } else if forall|v: MembershipProofRequest|
                request_wf(v) && #[trigger] enc_request(v) == input ==> !request_shape_ok(v) {
                Some(PalletMerkleExtError::InvalidCall)
            } else {
                None
            }
        },
    }
}

/// The status and output that the host answers with for the outcome of an
/// operation that yields only accounting metadata; `failure` is the kind
/// that a refusal of that operation becomes.
pub open spec fn outcome_of(
    result: Result<CustomPostDispatchInfo, GroupError>,
    failure: PalletMerkleExtError,
    out: CallOutcome,
) -> bool {
    match result {
        Ok(i) => out.status == 0 && (out.output matches Some(o) && o@ == enc_info(i)),
        Err(_) => out.status == status_of(failure) && out.output is None,
    }
}

/// The status and output that the host answers with for the outcome of
/// `create_group`.
pub open spec fn create_outcome_of(
    result: Result<(GroupDescriptor, CustomPostDispatchInfo), GroupError>,
    out: CallOutcome,
) -> bool {
    match result {
        Ok((g, i)) => out.status == 0 && (out.output matches Some(o) && o@ == enc_create_result(g, i)),
        Err(_) => out.status == status_of(PalletMerkleExtError::GroupCreationFailed) && out.output is None,
    }
}

/// The bytes of an answer's output buffer; none are empty.
pub open spec fn output_bytes(out: CallOutcome) -> Seq<u8> {
    match out.output {
        Some(o) => o@,
        None => Seq::empty(),
    }
}

/// The host-side chain extension for Merkle groups.
pub struct PalletMerkleExtension;

impl PalletMerkleExtension {
    /// Decodes a call of `func_id` with the argument buffer `input`.
    pub fn decode_call(func_id: u32, input: &Vec<u8>) -> (r: Result<Request, PalletMerkleExtError>)
        ensures
            r is Err <==> call_error(func_id, input@) is Some,
            r matches Err(e) ==> call_error(func_id, input@) == Some(e),
            r matches Ok(Request::CreateGroup { manager_restricted, depth }) ==> operation_spec(func_id)
                == Some(Operation::CreateGroup) && enc_create_args(manager_restricted, depth) == input@,
            r matches Ok(Request::AddMembers { group_id, members }) ==> operation_spec(func_id)
                == Some(Operation::AddElements) && members_ok(members@) && enc_add_args(group_id, members@)
                == input@,
            r matches Ok(Request::VerifyMembership(v)) ==> operation_spec(func_id) == Some(
                Operation::VerifyGroup,
            ) && request_wf(v) && request_shape_ok(v) && enc_request(v) == input@,
            operation_spec(func_id) == Some(Operation::CreateGroup) ==> forall|m: bool, d: Option<u8>|
                #[trigger] enc_create_args(m, d) == input@ ==> r == Ok::<_, PalletMerkleExtError>(
                    Request::CreateGroup { manager_restricted: m, depth: d },
                ),
            operation_spec(func_id) == Some(Operation::AddElements) ==> forall|g: u32, m: Seq<Vec<u8>>|
                members_ok(m) && #[trigger] enc_add_args(g, m) == input@ ==> (r matches Ok(
                    Request::AddMembers { group_id, members },
                ) && group_id == g && scalar_views(members@) == scalar_views(m)),
            operation_spec(func_id) == Some(Operation::VerifyGroup) ==> forall|v: MembershipProofRequest|
                request_wf(v) && request_shape_ok(v) && #[trigger] enc_request(v) == input@ ==> (r matches Ok(
                    Request::VerifyMembership(w),
                ) && request_view(w) == request_view(v)),
    {
        match Operation::from_id(func_id) {
            None => Err(PalletMerkleExtError::UnknownOperation),
            Some(Operation::CreateGroup) => match decode_create_args(input) {
                Ok((m, d)) => Ok(Request::CreateGroup { manager_restricted: m, depth: d }),
                Err(e) => Err(e),
            },
            Some(Operation::AddElements) => match decode_add_args(input) {
                Ok((g, m)) => {
                    if m.len() == 0 {
                        proof {
                            assert forall|g2: u32, m2: Seq<Vec<u8>>|
                                scalars_ok(m2) && #[trigger] enc_add_args(g2, m2) == input@ implies m2.len() == 0 by {
                                assert(scalar_views(m@).len() == scalar_views(m2).len());
                            }
                        }
                        Err(PalletMerkleExtError::InvalidCall)
                    } else {
                        Ok(Request::AddMembers { group_id: g, members: m })
                    }
                },
                Err(e) => Err(e),
            },
            Some(Operation::VerifyGroup) => match decode_request(input) {
                Ok(v) => {
                    if check_request_shape(&v) {
                        Ok(Request::VerifyMembership(v))
                    } else {
                        proof {
                            assert forall|v2: MembershipProofRequest|
                                request_wf(v2) && #[trigger] enc_request(v2) == input@ implies !request_shape_ok(v2) by {
                                assert(same_request(v, v2));
                                assert(scalar_views(v.commitments@).len() == scalar_views(v2.commitments@).len());
                                assert(scalar_views(v.leaf_index_commitments@).len() == scalar_views(v2.leaf_index_commitments@).len());
                                assert(scalar_views(v.proof_commitments@).len() == scalar_views(v2.proof_commitments@).len());
                            }
                        }
                        Err(PalletMerkleExtError::InvalidCall)
                    }
                },
                Err(e) => Err(e),
            },
        }
    }

    /// The answer to `create_group` for what the group service returned.
    pub fn complete_create_group(result: Result<(GroupDescriptor, CustomPostDispatchInfo), GroupError>) -> (out: CallOutcome)
        ensures
            create_outcome_of(result, out),
    {
        match result {
            Ok((g, i)) => CallOutcome { status: 0, output: Some(encode_create_result(&g, &i)) },
            Err(_) => CallOutcome {
                status: PalletMerkleExtError::GroupCreationFailed.to_status_code(),
                output: None,
            },
        }
    }

    /// The answer to `add_elements` or `verify_group` for what the group
    /// service returned; a refusal becomes `failure`.
    pub fn complete_update(
        result: Result<CustomPostDispatchInfo, GroupError>,
        failure: PalletMerkleExtError,
    ) -> (out: CallOutcome)
        ensures
            outcome_of(result, failure, out),
    {
        match result {
            Ok(i) => CallOutcome { status: 0, output: Some(encode_info(&i)) },
            Err(_) => CallOutcome { status: failure.to_status_code(), output: None },
        }
    }

    /// Handles one extension call from a sandbox: `func_id` names the
    /// operation, `input` holds its encoded arguments and `requester` is the
    /// calling account.
    pub fn call<G: Group>(group: &mut G, requester: &Vec<u8>, func_id: u32, input: &Vec<u8>) -> (out: CallOutcome)
        ensures
            call_error(func_id, input@) matches Some(e) ==> out.status == status_of(e) && out.output is None,
            call_error(func_id, input@) is Some ==> *final(group) == *old(group),
            operation_spec(func_id) == Some(Operation::CreateGroup) ==> forall|m: bool, d: Option<u8>|
                #[trigger] enc_create_args(m, d) == input@ ==> create_outcome_of(
                    old(group).create_answer(requester@, m, d),
                    out,
                ) && *final(group) == old(group).after_create(requester@, m, d),
            operation_spec(func_id) == Some(Operation::AddElements) ==> forall|g: u32, m: Seq<Vec<u8>>|
                members_ok(m) && #[trigger] enc_add_args(g, m) == input@ ==> outcome_of(
                    old(group).add_answer(requester@, g, scalar_views(m)),
                    PalletMerkleExtError::MemberInsertionFailed,
                    out,
                ) && *final(group) == old(group).after_add(requester@, g, scalar_views(m)),
            operation_spec(func_id) == Some(Operation::VerifyGroup) ==> forall|v: MembershipProofRequest|
                request_wf(v) && request_shape_ok(v) && #[trigger] enc_request(v) == input@
                    ==> outcome_of(
                    old(group).verify_answer(request_view(v)),
                    PalletMerkleExtError::MembershipVerificationFailed,
                    out,
                ) && *final(group) == old(group).after_verify(request_view(v)),
    {
        match Self::decode_call(func_id, input) {
            Err(e) => CallOutcome { status: e.to_status_code(), output: None },
            Ok(Request::CreateGroup { manager_restricted, depth }) => {
                let res = group.create_group(requester, manager_restricted, depth);
                Self::complete_create_group(res)
            },
            Ok(Request::AddMembers { group_id, members }) => {
                let res = group.add_members(requester, group_id, &members);
                Self::complete_update(res, PalletMerkleExtError::MemberInsertionFailed)
            },
            Ok(Request::VerifyMembership(v)) => {
                let res = group.verify_membership(&v);
                Self::complete_update(res, PalletMerkleExtError::MembershipVerificationFailed)
            },
        }
    }

    /// The extension is always available.
    pub fn enabled() -> (r: bool)
        ensures
            r,
    {
        true
    }
}

} // verus!
