use frame_support::dispatch::{Pays, PostDispatchInfo};
use frame_support::weights::Weight;
use merkle_extension::client::{MerkleExtension, MerkleExtensionTrait};
use vstd::seq::Seq;
use merkle_extension::codec::{push_u32, push_u64};
use merkle_extension::dispatch::{CallOutcome, Group, GroupError, PalletMerkleExtension, Request};
use merkle_extension::error::{
    PalletMerkleExtError, STATUS_ENCODING_FAILED, STATUS_GROUP_CREATION_FAILED,
    STATUS_INVALID_CALL, STATUS_MEMBERSHIP_VERIFICATION_FAILED, STATUS_MEMBER_INSERTION_FAILED,
    STATUS_UNKNOWN_OPERATION,
};
use merkle_extension::messages::{
    decode_add_args, decode_create_args, decode_create_result, decode_info, decode_request,
    encode_add_args, encode_create_args, encode_create_result, encode_info, encode_request,
    CustomPays, CustomPostDispatchInfo, GroupDescriptor, MembershipProofRequest, RequestView,
};
use merkle_extension::registry::{Operation, ADD_ELEMENTS_ID, CREATE_GROUP_ID, VERIFY_GROUP_ID};

/// A group service with fixed answers that records what it was asked.
struct MockGroup {
    create: Result<(GroupDescriptor, CustomPostDispatchInfo), GroupError>,
    update: Result<CustomPostDispatchInfo, GroupError>,
    created: Vec<(bool, Option<u8>)>,
    added: Vec<(u32, usize)>,
    verified: usize,
}

// The `*_answer` and `after_*` items are the trait's model for the verifier; nothing
// calls them when the program runs.
impl Group for MockGroup {
    fn create_answer(
        &self,
        _requester: Seq<u8>,
        _manager_restricted: bool,
        _depth: Option<u8>,
    ) -> Result<(GroupDescriptor, CustomPostDispatchInfo), GroupError> {
        unreachable!("model only")
    }

    fn add_answer(
        &self,
        _requester: Seq<u8>,
        _group_id: u32,
        _members: Seq<Seq<u8>>,
    ) -> Result<CustomPostDispatchInfo, GroupError> {
        unreachable!("model only")
    }

    fn verify_answer(&self, _request: RequestView) -> Result<CustomPostDispatchInfo, GroupError> {
        unreachable!("model only")
    }

    fn after_create(&self, _requester: Seq<u8>, _manager_restricted: bool, _depth: Option<u8>) -> Self {
        unreachable!("model only")
    }

    fn after_add(&self, _requester: Seq<u8>, _group_id: u32, _members: Seq<Seq<u8>>) -> Self {
        unreachable!("model only")
    }

    fn after_verify(&self, _request: RequestView) -> Self {
        unreachable!("model only")
    }

    fn create_group(
        &mut self,
        _requester: &Vec<u8>,
        manager_restricted: bool,
        depth: Option<u8>,
    ) -> Result<(GroupDescriptor, CustomPostDispatchInfo), GroupError> {
        self.created.push((manager_restricted, depth));
        self.create
    }

    fn add_members(
        &mut self,
        _requester: &Vec<u8>,
        group_id: u32,
        members: &Vec<Vec<u8>>,
    ) -> Result<CustomPostDispatchInfo, GroupError> {
        self.added.push((group_id, members.len()));
        self.update
    }

    fn verify_membership(
        &mut self,
        _request: &MembershipProofRequest,
    ) -> Result<CustomPostDispatchInfo, GroupError> {
        self.verified += 1;
        self.update
    }
}

/// A sandbox environment whose extension calls reach the dispatcher directly.
struct Loopback {
    group: MockGroup,
    calls: usize,
}

impl MerkleExtensionTrait for Loopback {
    fn answer(&self, _func_id: u32, _input: Seq<u8>) -> (u32, Seq<u8>) {
        unreachable!("model only")
    }

    fn after(&self, _func_id: u32, _input: Seq<u8>) -> Self {
        unreachable!("model only")
    }

    fn call_extension(&mut self, func_id: u32, input: &Vec<u8>) -> (u32, Vec<u8>) {
        self.calls += 1;
        let out = PalletMerkleExtension::call(&mut self.group, &vec![9u8; 32], func_id, input);
        (out.status, out.output.unwrap_or_default())
    }
}

fn outcome() -> CustomPostDispatchInfo {
    CustomPostDispatchInfo { actual_weight: Some(1200), pays_fee: CustomPays::Yes }
}

fn descriptor() -> GroupDescriptor {
    GroupDescriptor { id: 7, manager_restricted: false, depth: Some(20) }
}

fn loopback(update: Result<CustomPostDispatchInfo, GroupError>) -> Loopback {
    Loopback {
        group: MockGroup {
            create: Ok((descriptor(), outcome())),
            update,
            created: Vec::new(),
            added: Vec::new(),
            verified: 0,
        },
        calls: 0,
    }
}

fn scalar(b: u8) -> Vec<u8> {
    vec![b; 32]
}

fn request() -> MembershipProofRequest {
    MembershipProofRequest {
        group_id: 7,
        cached_root: scalar(1),
        commitments: vec![scalar(2), scalar(3)],
        nullifier_hash: scalar(4),
        proof_bytes: vec![5, 6, 7],
        leaf_index_commitments: vec![scalar(8)],
        proof_commitments: vec![scalar(9)],
        recipient: scalar(10),
        relayer: scalar(11),
    }
}

fn same(a: &MembershipProofRequest, b: &MembershipProofRequest) -> bool {
    a.group_id == b.group_id
        && a.cached_root == b.cached_root
        && a.commitments == b.commitments
        && a.nullifier_hash == b.nullifier_hash
        && a.proof_bytes == b.proof_bytes
        && a.leaf_index_commitments == b.leaf_index_commitments
        && a.proof_commitments == b.proof_commitments
        && a.recipient == b.recipient
        && a.relayer == b.relayer
}

#[test]
fn create_group_scenario() {
    let mut env = loopback(Ok(outcome()));
    let client = MerkleExtension::new();
    let r = client.create_group(&mut env, false, Some(20));
    assert_eq!(r, Ok((descriptor(), outcome())));
    assert_eq!(env.group.created, vec![(false, Some(20))]);
    assert_eq!(env.calls, 1);
}

#[test]
fn create_group_refused() {
    let mut env = loopback(Ok(outcome()));
    env.group.create = Err(GroupError { reason: 3 });
    let r = MerkleExtension::new().create_group(&mut env, true, None);
    assert_eq!(r, Err(PalletMerkleExtError::GroupCreationFailed));
}

#[test]
fn add_elements_empty_is_rejected_locally() {
    let mut env = loopback(Ok(outcome()));
    let r = MerkleExtension::new().add_elements(&mut env, 7, &Vec::new());
    assert_eq!(r, Err(PalletMerkleExtError::InvalidCall));
    assert_eq!(env.calls, 0);
    assert!(env.group.added.is_empty());
}

#[test]
fn add_elements_short_scalar_is_rejected_locally() {
    let mut env = loopback(Ok(outcome()));
    let r = MerkleExtension::new().add_elements(&mut env, 7, &vec![scalar(1), vec![1, 2]]);
    assert_eq!(r, Err(PalletMerkleExtError::InvalidCall));
    assert_eq!(env.calls, 0);
}

#[test]
fn add_elements_success() {
    let mut env = loopback(Ok(outcome()));
    let r = MerkleExtension::new().add_elements(&mut env, 7, &vec![scalar(1), scalar(2)]);
    assert_eq!(r, Ok(outcome()));
    assert_eq!(env.group.added, vec![(7, 2)]);
}

#[test]
fn add_elements_refused() {
    let mut env = loopback(Err(GroupError { reason: 1 }));
    let r = MerkleExtension::new().add_elements(&mut env, 7, &vec![scalar(1)]);
    assert_eq!(r, Err(PalletMerkleExtError::MemberInsertionFailed));
}

#[test]
fn verification_failure_scenario() {
    let mut env = loopback(Err(GroupError { reason: 42 }));
    let r = MerkleExtension::new().verify_group(&mut env, &request());
    assert_eq!(r, Err(PalletMerkleExtError::MembershipVerificationFailed));
    assert_eq!(env.group.verified, 1);
}

#[test]
fn verification_success() {
    let free = CustomPostDispatchInfo { actual_weight: None, pays_fee: CustomPays::No };
    let mut env = loopback(Ok(free));
    let r = MerkleExtension::new().verify_group(&mut env, &request());
    assert_eq!(r, Ok(free));
}

#[test]
fn verify_group_malformed_request_is_rejected_locally() {
    let mut env = loopback(Ok(outcome()));
    let mut req = request();
    req.commitments = Vec::new();
    assert_eq!(
        MerkleExtension::new().verify_group(&mut env, &req),
        Err(PalletMerkleExtError::InvalidCall)
    );
    let mut req = request();
    req.proof_commitments = vec![scalar(1), scalar(2)];
    assert_eq!(
        MerkleExtension::new().verify_group(&mut env, &req),
        Err(PalletMerkleExtError::InvalidCall)
    );
    let mut req = request();
    req.nullifier_hash = vec![0u8; 31];
    assert_eq!(
        MerkleExtension::new().verify_group(&mut env, &req),
        Err(PalletMerkleExtError::InvalidCall)
    );
    assert_eq!(env.calls, 0);
}

#[test]
fn dispatcher_rejects_malformed_request() {
    let mut group = loopback(Ok(outcome())).group;
    let mut req = request();
    req.leaf_index_commitments = Vec::new();
    req.proof_commitments = Vec::new();
    let input = encode_request(&req);
    let out = PalletMerkleExtension::call(&mut group, &scalar(0), VERIFY_GROUP_ID, &input);
    assert_eq!(out.status, STATUS_INVALID_CALL);
    assert!(out.output.is_none());
    assert_eq!(group.verified, 0);
}

#[test]
fn dispatcher_rejects_empty_members() {
    let mut group = loopback(Ok(outcome())).group;
    let input = encode_add_args(7, &Vec::new());
    let out = PalletMerkleExtension::call(&mut group, &scalar(0), ADD_ELEMENTS_ID, &input);
    assert_eq!(out.status, STATUS_INVALID_CALL);
    assert!(out.output.is_none());
}

#[test]
fn unknown_identifier() {
    let mut group = loopback(Ok(outcome())).group;
    let out: CallOutcome = PalletMerkleExtension::call(&mut group, &scalar(0), 9999, &vec![1, 0]);
    assert_eq!(out.status, STATUS_UNKNOWN_OPERATION);
    assert!(out.output.is_none());
    assert!(group.created.is_empty());
    assert!(matches!(
        PalletMerkleExtension::decode_call(9999, &Vec::new()),
        Err(PalletMerkleExtError::UnknownOperation)
    ));
}

#[test]
fn truncated_buffer() {
    let mut group = loopback(Ok(outcome())).group;
    for id in [CREATE_GROUP_ID, ADD_ELEMENTS_ID, VERIFY_GROUP_ID] {
        let out = PalletMerkleExtension::call(&mut group, &scalar(0), id, &Vec::new());
        assert_eq!(out.status, STATUS_ENCODING_FAILED);
        assert!(out.output.is_none());
    }
    let full = encode_request(&request());
    for cut in [1usize, 3, 10, full.len() - 1] {
        let out = PalletMerkleExtension::call(&mut group, &scalar(0), VERIFY_GROUP_ID, &full[..cut].to_vec());
        assert_eq!(out.status, STATUS_ENCODING_FAILED);
        assert!(out.output.is_none());
    }
    assert_eq!(group.verified, 0);
}

#[test]
fn dispatcher_success_outputs() {
    let mut group = loopback(Ok(outcome())).group;
    let out = PalletMerkleExtension::call(
        &mut group,
        &scalar(0),
        CREATE_GROUP_ID,
        &encode_create_args(false, Some(20)),
    );
    assert_eq!(out.status, 0);
    assert_eq!(out.output, Some(encode_create_result(&descriptor(), &outcome())));
    assert_eq!(group.created, vec![(false, Some(20))]);
    let out = PalletMerkleExtension::call(&mut group, &scalar(0), VERIFY_GROUP_ID, &encode_request(&request()));
    assert_eq!(out.status, 0);
    assert_eq!(out.output, Some(encode_info(&outcome())));
}

#[test]
fn dispatcher_failure_codes() {
    let mut group = loopback(Err(GroupError { reason: 0 })).group;
    group.create = Err(GroupError { reason: 0 });
    let out = PalletMerkleExtension::call(&mut group, &scalar(0), CREATE_GROUP_ID, &encode_create_args(true, None));
    assert_eq!(out.status, STATUS_GROUP_CREATION_FAILED);
    let out = PalletMerkleExtension::call(&mut group, &scalar(0), ADD_ELEMENTS_ID, &encode_add_args(1, &vec![scalar(3)]));
    assert_eq!(out.status, STATUS_MEMBER_INSERTION_FAILED);
    let out = PalletMerkleExtension::call(&mut group, &scalar(0), VERIFY_GROUP_ID, &encode_request(&request()));
    assert_eq!(out.status, STATUS_MEMBERSHIP_VERIFICATION_FAILED);
    assert!(out.output.is_none());
}

#[test]
fn decode_call_yields_arguments() {
    match PalletMerkleExtension::decode_call(ADD_ELEMENTS_ID, &encode_add_args(5, &vec![scalar(1)])) {
        Ok(Request::AddMembers { group_id, members }) => {
            assert_eq!(group_id, 5);
            assert_eq!(members, vec![scalar(1)]);
        }
        _ => panic!("expected add-members arguments"),
    }
}

#[test]
fn status_mapping_is_total() {
    for code in 0u32..=255 {
        let r = PalletMerkleExtError::from_status_code(code);
        if code == 0 {
            assert_eq!(r, Ok(()));
        } else {
            let e = r.unwrap_err();
            assert_eq!(e.to_status_code(), code);
        }
    }
    assert_eq!(
        PalletMerkleExtError::from_status_code(u32::MAX),
        Err(PalletMerkleExtError::UnknownStatus(u32::MAX))
    );
    assert_eq!(
        PalletMerkleExtError::from_status_code(200),
        Err(PalletMerkleExtError::UnknownStatus(200))
    );
}

#[test]
fn status_mapping_is_injective() {
    let kinds = [
        PalletMerkleExtError::InvalidCall,
        PalletMerkleExtError::GroupCreationFailed,
        PalletMerkleExtError::MemberInsertionFailed,
        PalletMerkleExtError::MembershipVerificationFailed,
        PalletMerkleExtError::EncodingFailed,
        PalletMerkleExtError::HostDispatchFailed,
        PalletMerkleExtError::UnknownOperation,
    ];
    for (i, a) in kinds.iter().enumerate() {
        assert_ne!(a.to_status_code(), 0);
        assert_eq!(PalletMerkleExtError::from_status_code(a.to_status_code()), Err(*a));
        for b in kinds.iter().skip(i + 1) {
            assert_ne!(a.to_status_code(), b.to_status_code());
        }
    }
    assert_eq!(PalletMerkleExtError::MembershipVerificationFailed.to_status_code(), 1103);
    assert_eq!(PalletMerkleExtError::EncodingFailed.to_status_code(), 2);
}

#[test]
fn registry_identifiers() {
    assert_eq!(Operation::from_id(1101), Some(Operation::CreateGroup));
    assert_eq!(Operation::from_id(1102), Some(Operation::AddElements));
    assert_eq!(Operation::from_id(1103), Some(Operation::VerifyGroup));
    assert_eq!(Operation::from_id(9999), None);
    assert_eq!(Operation::VerifyGroup.id(), 1103);
    assert!(PalletMerkleExtension::enabled());
}

#[test]
fn round_trips() {
    for m in [false, true] {
        for d in [None, Some(0u8), Some(20), Some(255)] {
            assert_eq!(decode_create_args(&encode_create_args(m, d)), Ok((m, d)));
        }
    }
    let members = vec![scalar(1), scalar(2), scalar(3)];
    assert_eq!(decode_add_args(&encode_add_args(u32::MAX, &members)), Ok((u32::MAX, members)));
    assert_eq!(decode_add_args(&encode_add_args(0, &Vec::new())), Ok((0, Vec::new())));
    let req = request();
    assert!(same(&decode_request(&encode_request(&req)).unwrap(), &req));
    let info = CustomPostDispatchInfo { actual_weight: Some(u64::MAX), pays_fee: CustomPays::No };
    assert_eq!(decode_info(&encode_info(&info)), Ok(info));
    let g = GroupDescriptor { id: 0x01020304, manager_restricted: true, depth: None };
    assert_eq!(decode_create_result(&encode_create_result(&g, &info)), Ok((g, info)));
}

#[test]
fn exact_encodings() {
    assert_eq!(encode_create_args(false, Some(20)), vec![0, 1, 20]);
    assert_eq!(encode_create_args(true, None), vec![1, 0]);
    assert_eq!(encode_info(&outcome()), vec![1, 0xb0, 0x04, 0, 0, 0, 0, 0, 0, 0]);
    assert_eq!(encode_add_args(0x0a0b0c0d, &vec![scalar(7)]).len(), 4 + 4 + 32);
    assert_eq!(&encode_add_args(0x0a0b0c0d, &vec![scalar(7)])[..8], &[0x0d, 0x0c, 0x0b, 0x0a, 1, 0, 0, 0]);
    let mut out = Vec::new();
    push_u32(&mut out, 0x01020304);
    push_u64(&mut out, 0x0102030405060708);
    assert_eq!(out, vec![4, 3, 2, 1, 8, 7, 6, 5, 4, 3, 2, 1]);
    let g = GroupDescriptor { id: 7, manager_restricted: false, depth: Some(20) };
    assert_eq!(
        encode_create_result(&g, &CustomPostDispatchInfo { actual_weight: None, pays_fee: CustomPays::No }),
        vec![7, 0, 0, 0, 0, 1, 20, 0, 1]
    );
}

#[test]
fn malformed_buffers_fail_to_decode() {
    let e = Err(PalletMerkleExtError::EncodingFailed);
    assert_eq!(decode_create_args(&vec![2, 0]), e);
    assert_eq!(decode_create_args(&vec![0, 2]), e);
    assert_eq!(decode_create_args(&vec![0, 0, 0]), e);
    assert_eq!(decode_create_args(&vec![0, 1]), e);
    assert_eq!(decode_info(&vec![0, 2]), Err(PalletMerkleExtError::EncodingFailed));
    assert_eq!(decode_info(&vec![1, 0, 0]), Err(PalletMerkleExtError::EncodingFailed));
    assert!(decode_add_args(&vec![7, 0, 0, 0, 1, 0, 0, 0, 5]).is_err());
    assert!(decode_request(&vec![0u8; 10]).is_err());
    assert_eq!(MerkleExtension::finish_update(0, &vec![3]), Err(PalletMerkleExtError::EncodingFailed));
    assert_eq!(
        MerkleExtension::finish_create_group(77, &Vec::new()),
        Err(PalletMerkleExtError::UnknownStatus(77))
    );
    assert_eq!(
        MerkleExtension::finish_update(0, &encode_info(&outcome())),
        Ok(outcome())
    );
}

#[test]
fn runtime_accounting_conversions() {
    assert_eq!(CustomPays::from(Pays::Yes), CustomPays::Yes);
    assert_eq!(CustomPays::from(Pays::No), CustomPays::No);
    assert_eq!(Pays::from(CustomPays::No), Pays::No);
    assert_eq!(Pays::from(CustomPays::Yes), Pays::Yes);
    let info = PostDispatchInfo { actual_weight: Some(Weight::from_parts(1200, 5)), pays_fee: Pays::No };
    assert_eq!(
        CustomPostDispatchInfo::from(info),
        CustomPostDispatchInfo { actual_weight: Some(1200), pays_fee: CustomPays::No }
    );
    let info = PostDispatchInfo { actual_weight: None, pays_fee: Pays::Yes };
    assert_eq!(
        CustomPostDispatchInfo::from(info),
        CustomPostDispatchInfo { actual_weight: None, pays_fee: CustomPays::Yes }
    );
    assert_eq!(
        CustomPostDispatchInfo::from_parts(Some(1200), Pays::Yes),
        CustomPostDispatchInfo { actual_weight: Some(1200), pays_fee: CustomPays::Yes }
    );
    assert_eq!(
        CustomPostDispatchInfo::from_parts(None, Pays::No),
        CustomPostDispatchInfo { actual_weight: None, pays_fee: CustomPays::No }
    );
    let e: PalletMerkleExtError = parity_scale_codec::Error::from("truncated").into();
    assert_eq!(e, PalletMerkleExtError::EncodingFailed);
}
