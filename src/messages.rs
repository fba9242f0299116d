//! The values that cross the boundary and their wire encodings.
use vstd::prelude::*;
use crate::codec::{
    enc_bool, enc_bytes, enc_opt_u64, enc_opt_u8, enc_scalars, enc_u32, enc_u64, lemma_join, lemma_split,
    lemma_u32_round_trip, lemma_u64_round_trip, push_bool, push_bytes, push_opt_u64, push_opt_u8, push_scalar, push_scalars, push_u32, read_bool, read_bytes, read_opt_u64, read_opt_u8, read_scalar, read_scalars, read_u32,
    scalar_views, scalars_wf, SCALAR_LEN,
};
use crate::error::PalletMerkleExtError;

verus! {

/// Whether the caller is charged a fee for a call.
#[derive(Debug, Clone, Copy, PartialEq, Eq, Structural)]
pub enum CustomPays {
    /// The call is chargeable.
    Yes,
    /// The call is free.
    No,
}

/// Accounting metadata of a successful host operation: the work actually
/// performed, if measured, and whether a fee is owed.
#[derive(Debug, Clone, Copy, PartialEq, Eq, Structural)]
pub struct CustomPostDispatchInfo {
    pub actual_weight: Option<u64>,
    pub pays_fee: CustomPays,
}

/// A Merkle group as the host describes it.
#[derive(Debug, Clone, Copy, PartialEq, Eq, Structural)]
pub struct GroupDescriptor {
    pub id: u32,
    pub manager_restricted: bool,
    pub depth: Option<u8>,
}

/// Everything needed to verify a membership proof against a group.
#[derive(Debug, Clone)]
pub struct MembershipProofRequest {
    pub group_id: u32,
    pub cached_root: Vec<u8>,
    pub commitments: Vec<Vec<u8>>,
    pub nullifier_hash: Vec<u8>,
    pub proof_bytes: Vec<u8>,
    pub leaf_index_commitments: Vec<Vec<u8>>,
    pub proof_commitments: Vec<Vec<u8>>,
    pub recipient: Vec<u8>,
    pub relayer: Vec<u8>,
}

/// A fee flag is one byte: `0` for `Yes`, `1` for `No`.
pub open spec fn enc_pays(p: CustomPays) -> Seq<u8> {
    match p {
        CustomPays::Yes => seq![0u8],
        CustomPays::No => seq![1u8],
    }
}

pub open spec fn enc_info(i: CustomPostDispatchInfo) -> Seq<u8> {
    enc_opt_u64(i.actual_weight) + enc_pays(i.pays_fee)
}

pub open spec fn enc_descriptor(g: GroupDescriptor) -> Seq<u8> {
    enc_u32(g.id) + enc_bool(g.manager_restricted) + enc_opt_u8(g.depth)
}

/// Arguments of `create_group`.
pub open spec fn enc_create_args(manager_restricted: bool, depth: Option<u8>) -> Seq<u8> {
    enc_bool(manager_restricted) + enc_opt_u8(depth)
}

/// Arguments of `add_elements`.
pub open spec fn enc_add_args(group_id: u32, members: Seq<Vec<u8>>) -> Seq<u8> {
    enc_u32(group_id) + enc_scalars(members)
}

/// Arguments of `verify_group`.
pub open spec fn enc_request(r: MembershipProofRequest) -> Seq<u8> {
    enc_u32(r.group_id) + r.cached_root@ + enc_scalars(r.commitments@) + r.nullifier_hash@
        + enc_bytes(r.proof_bytes@) + enc_scalars(r.leaf_index_commitments@) + enc_scalars(
        r.proof_commitments@,
    ) + r.recipient@ + r.relayer@
}

/// Result of `create_group`.
pub open spec fn enc_create_result(g: GroupDescriptor, i: CustomPostDispatchInfo) -> Seq<u8> {
    enc_descriptor(g) + enc_info(i)
}

/// A sequence of scalars that the wire format can carry.
pub open spec fn scalars_ok(s: Seq<Vec<u8>>) -> bool {
    scalars_wf(s) && s.len() <= u32::MAX
}

/// A request that the wire format can carry: every scalar is of the right
/// width and every sequence's length fits its `u32` prefix.
pub open spec fn request_wf(r: MembershipProofRequest) -> bool {
    &&& r.cached_root@.len() == SCALAR_LEN
    &&& r.nullifier_hash@.len() == SCALAR_LEN
    &&& r.recipient@.len() == SCALAR_LEN
    &&& r.relayer@.len() == SCALAR_LEN
    &&& scalars_ok(r.commitments@)
    &&& scalars_ok(r.leaf_index_commitments@)
    &&& scalars_ok(r.proof_commitments@)
    &&& r.proof_bytes@.len() <= u32::MAX
}

/// The values a request holds, with each scalar as its bytes.
pub type RequestView = (
    u32,
    Seq<u8>,
    Seq<Seq<u8>>,
    Seq<u8>,
    Seq<u8>,
    Seq<Seq<u8>>,
    Seq<Seq<u8>>,
    Seq<u8>,
    Seq<u8>,
);

pub open spec fn request_view(r: MembershipProofRequest) -> RequestView {
    (
        r.group_id,
        r.cached_root@,
        scalar_views(r.commitments@),
        r.nullifier_hash@,
        r.proof_bytes@,
        scalar_views(r.leaf_index_commitments@),
        scalar_views(r.proof_commitments@),
        r.recipient@,
        r.relayer@,
    )
}

/// Two requests hold the same values.
pub open spec fn same_request(a: MembershipProofRequest, b: MembershipProofRequest) -> bool {
    &&& a.group_id == b.group_id
    &&& a.cached_root@ == b.cached_root@
    &&& scalar_views(a.commitments@) == scalar_views(b.commitments@)
    &&& a.nullifier_hash@ == b.nullifier_hash@
    &&& a.proof_bytes@ == b.proof_bytes@
    &&& scalar_views(a.leaf_index_commitments@) == scalar_views(b.leaf_index_commitments@)
    &&& scalar_views(a.proof_commitments@) == scalar_views(b.proof_commitments@)
    &&& a.recipient@ == b.recipient@
    &&& a.relayer@ == b.relayer@
}

/// The local shape check of a request: the three commitment sequences are
/// non-empty, and there is one proof commitment per leaf-index commitment.
pub open spec fn request_shape_ok(r: MembershipProofRequest) -> bool {
    &&& r.commitments@.len() > 0
    &&& r.leaf_index_commitments@.len() > 0
    &&& r.proof_commitments@.len() > 0
    &&& r.leaf_index_commitments@.len() == r.proof_commitments@.len()
}

/// Checks the shape of a request before it crosses the boundary.
pub fn check_request_shape(r: &MembershipProofRequest) -> (ok: bool)
    ensures
        ok == request_shape_ok(*r),
{
    r.commitments.len() > 0 && r.leaf_index_commitments.len() > 0 && r.proof_commitments.len() > 0
        && r.leaf_index_commitments.len() == r.proof_commitments.len()
}

fn read_pays(buf: &Vec<u8>, pos: usize) -> (r: Option<(CustomPays, usize)>)
    ensures
        r matches Some((v, n)) ==> n == pos + 1 && n <= buf@.len() && buf@.subrange(
            pos as int,
            n as int,
        ) == enc_pays(v),
        forall|v: CustomPays|
            pos + 1 <= buf@.len() && buf@.subrange(pos as int, pos + 1) == #[trigger] enc_pays(v)
                ==> r == Some((v, (pos + 1) as usize)),
{
    if pos >= buf.len() {
        return None;
    }
    let b = buf[pos];
    proof {
        assert forall|v: CustomPays|
            buf@.subrange(pos as int, pos + 1) == #[trigger] enc_pays(v) implies (b == 0 && v
                == CustomPays::Yes) || (b == 1 && v == CustomPays::No) by {
            assert(enc_pays(v)[0] == buf@.subrange(pos as int, pos + 1)[0]);
        }
    }
    if b == 0 {
        assert(buf@.subrange(pos as int, pos + 1) =~= enc_pays(CustomPays::Yes));
        Some((CustomPays::Yes, pos + 1))
    } else if b == 1 {
        assert(buf@.subrange(pos as int, pos + 1) =~= enc_pays(CustomPays::No));
        Some((CustomPays::No, pos + 1))
    } else {
        None
    }
}

fn read_info(buf: &Vec<u8>, pos: usize) -> (r: Option<(CustomPostDispatchInfo, usize)>)
    ensures
        r matches Some((v, n)) ==> n == pos + enc_info(v).len() && n <= buf@.len()
            && buf@.subrange(pos as int, n as int) == enc_info(v),
        forall|v: CustomPostDispatchInfo|
            pos + enc_info(v).len() <= buf@.len() && buf@.subrange(
                pos as int,
                pos + enc_info(v).len(),
            ) == #[trigger] enc_info(v) ==> r == Some((v, (pos + enc_info(v).len()) as usize)),
{
    let r = match read_opt_u64(buf, pos) {
        None => None,
        Some((w, p1)) => match read_pays(buf, p1) {
            None => None,
            Some((f, p2)) => {
                let v = CustomPostDispatchInfo { actual_weight: w, pays_fee: f };
                proof {
                    lemma_join(buf@, pos as int, p1 as int, p2 as int, enc_opt_u64(w), enc_pays(f));
                }
                Some((v, p2))
            },
        },
    };
    proof {
        assert forall|v: CustomPostDispatchInfo|
            pos + enc_info(v).len() <= buf@.len() && buf@.subrange(pos as int, pos + enc_info(v).len())
                == #[trigger] enc_info(v) implies r == Some((v, (pos + enc_info(v).len()) as usize)) by {
            lemma_split(buf@, pos as int, enc_opt_u64(v.actual_weight), enc_pays(v.pays_fee));
        }
    }
    r
}

fn read_descriptor(buf: &Vec<u8>, pos: usize) -> (r: Option<(GroupDescriptor, usize)>)
    ensures
        r matches Some((v, n)) ==> n == pos + enc_descriptor(v).len() && n <= buf@.len()
            && buf@.subrange(pos as int, n as int) == enc_descriptor(v),
        forall|v: GroupDescriptor|
            pos + enc_descriptor(v).len() <= buf@.len() && buf@.subrange(
                pos as int,
                pos + enc_descriptor(v).len(),
            ) == #[trigger] enc_descriptor(v) ==> r == Some(
                (v, (pos + enc_descriptor(v).len()) as usize),
            ),
{
    let r = match read_u32(buf, pos) {
        None => None,
        Some((id, p1)) => match read_bool(buf, p1) {
            None => None,
            Some((m, p2)) => match read_opt_u8(buf, p2) {
                None => None,
                Some((d, p3)) => {
                    let v = GroupDescriptor { id, manager_restricted: m, depth: d };
                    proof {
                        lemma_join(buf@, pos as int, p1 as int, p2 as int, enc_u32(id), enc_bool(m));
                        lemma_join(buf@, pos as int, p2 as int, p3 as int, enc_u32(id) + enc_bool(m), enc_opt_u8(d));
                    }
                    Some((v, p3))
                },
            },
        },
    };
    proof {
        assert forall|v: GroupDescriptor|
            pos + enc_descriptor(v).len() <= buf@.len() && buf@.subrange(pos as int, pos + enc_descriptor(v).len())
                == #[trigger] enc_descriptor(v) implies r == Some((v, (pos + enc_descriptor(v).len()) as usize)) by {
            lemma_split(buf@, pos as int, enc_u32(v.id) + enc_bool(v.manager_restricted), enc_opt_u8(v.depth));
            lemma_split(buf@, pos as int, enc_u32(v.id), enc_bool(v.manager_restricted));
        }
    }
    r
}


/// Encodes the accounting metadata of a call.
pub fn encode_info(i: &CustomPostDispatchInfo) -> (r: Vec<u8>)
    ensures
        r@ == enc_info(*i),
{
    let mut out: Vec<u8> = Vec::new();
    push_opt_u64(&mut out, i.actual_weight);
    match i.pays_fee {
        CustomPays::Yes => out.push(0u8),
        CustomPays::No => out.push(1u8),
    }
    assert(out@ =~= enc_info(*i));
    out
}

/// Decodes the accounting metadata of a call; the buffer must hold exactly
/// one encoding.
pub fn decode_info(buf: &Vec<u8>) -> (r: Result<CustomPostDispatchInfo, PalletMerkleExtError>)
    ensures
        r matches Ok(v) ==> enc_info(v) == buf@,
        r is Err ==> r == Err::<CustomPostDispatchInfo, _>(PalletMerkleExtError::EncodingFailed),
        forall|v: CustomPostDispatchInfo| #[trigger] enc_info(v) == buf@ ==> r == Ok::<_, PalletMerkleExtError>(v),
{
    let r = match read_info(buf, 0) {
        Some((v, n)) => {
            if n == buf.len() {
                assert(buf@.subrange(0, n as int) =~= buf@);
                Ok(v)
            } else {
                Err(PalletMerkleExtError::EncodingFailed)
            }
        },
        None => Err(PalletMerkleExtError::EncodingFailed),
    };
    proof {
        assert forall|v: CustomPostDispatchInfo| #[trigger] enc_info(v) == buf@ implies r == Ok::<_, PalletMerkleExtError>(v) by {
            assert(buf@.subrange(0, enc_info(v).len() as int) =~= buf@);
        }
    }
    r
}

/// Encodes the result of `create_group`.
pub fn encode_create_result(g: &GroupDescriptor, i: &CustomPostDispatchInfo) -> (r: Vec<u8>)
    ensures
        r@ == enc_create_result(*g, *i),
{
    let mut out: Vec<u8> = Vec::new();
    push_u32(&mut out, g.id);
    push_bool(&mut out, g.manager_restricted);
    push_opt_u8(&mut out, g.depth);
    let tail = encode_info(i);
    let mut j: usize = 0;
    let ghost head = out@;
    while j < tail.len()
        invariant
            j <= tail@.len(),
            out@ == head + tail@.subrange(0, j as int),
        decreases tail@.len() - j,
    {
        out.push(tail[j]);
        j += 1;
        assert(out@ =~= head + tail@.subrange(0, j as int));
    }
    assert(tail@.subrange(0, j as int) =~= tail@);
    assert(out@ =~= enc_create_result(*g, *i));
    out
}

/// Decodes the result of `create_group`; the buffer must hold exactly one
/// encoding.
pub fn decode_create_result(buf: &Vec<u8>) -> (r: Result<(GroupDescriptor, CustomPostDispatchInfo), PalletMerkleExtError>)
    ensures
        r matches Ok((g, i)) ==> enc_create_result(g, i) == buf@,
        r is Err ==> r == Err::<(GroupDescriptor, CustomPostDispatchInfo), _>(PalletMerkleExtError::EncodingFailed),
        forall|g: GroupDescriptor, i: CustomPostDispatchInfo|
            #[trigger] enc_create_result(g, i) == buf@ ==> r == Ok::<_, PalletMerkleExtError>((g, i)),
{
    let r = match read_descriptor(buf, 0) {
        None => Err(PalletMerkleExtError::EncodingFailed),
        Some((g, p1)) => match read_info(buf, p1) {
            None => Err(PalletMerkleExtError::EncodingFailed),
            Some((i, p2)) => {
                if p2 == buf.len() {
                    proof {
                        lemma_join(buf@, 0, p1 as int, p2 as int, enc_descriptor(g), enc_info(i));
                        assert(buf@.subrange(0, p2 as int) =~= buf@);
                    }
                    Ok((g, i))
                } else {
                    Err(PalletMerkleExtError::EncodingFailed)
                }
            },
        },
    };
    proof {
        assert forall|g: GroupDescriptor, i: CustomPostDispatchInfo|
            #[trigger] enc_create_result(g, i) == buf@ implies r == Ok::<_, PalletMerkleExtError>((g, i)) by {
            assert(buf@.subrange(0, buf@.len() as int) =~= buf@);
            lemma_split(buf@, 0, enc_descriptor(g), enc_info(i));
        }
    }
    r
}

/// Encodes the arguments of `create_group`.
pub fn encode_create_args(manager_restricted: bool, depth: Option<u8>) -> (r: Vec<u8>)
    ensures
        r@ == enc_create_args(manager_restricted, depth),
{
    let mut out: Vec<u8> = Vec::new();
    push_bool(&mut out, manager_restricted);
    push_opt_u8(&mut out, depth);
    assert(out@ =~= enc_create_args(manager_restricted, depth));
    out
}

/// Decodes the arguments of `create_group`; the buffer must hold exactly one
/// encoding.
pub fn decode_create_args(buf: &Vec<u8>) -> (r: Result<(bool, Option<u8>), PalletMerkleExtError>)
    ensures
        r matches Ok((m, d)) ==> enc_create_args(m, d) == buf@,
        r is Err ==> r == Err::<(bool, Option<u8>), _>(PalletMerkleExtError::EncodingFailed),
        forall|m: bool, d: Option<u8>|
            #[trigger] enc_create_args(m, d) == buf@ ==> r == Ok::<_, PalletMerkleExtError>((m, d)),
{
    let r = match read_bool(buf, 0) {
        None => Err(PalletMerkleExtError::EncodingFailed),
        Some((m, p1)) => match read_opt_u8(buf, p1) {
            None => Err(PalletMerkleExtError::EncodingFailed),
            Some((d, p2)) => {
                if p2 == buf.len() {
                    proof {
                        lemma_join(buf@, 0, p1 as int, p2 as int, enc_bool(m), enc_opt_u8(d));
                        assert(buf@.subrange(0, p2 as int) =~= buf@);
                    }
                    Ok((m, d))
                } else {
                    Err(PalletMerkleExtError::EncodingFailed)
                }
            },
        },
    };
    proof {
        assert forall|m: bool, d: Option<u8>|
            #[trigger] enc_create_args(m, d) == buf@ implies r == Ok::<_, PalletMerkleExtError>((m, d)) by {
            assert(buf@.subrange(0, buf@.len() as int) =~= buf@);
            lemma_split(buf@, 0, enc_bool(m), enc_opt_u8(d));
        }
    }
    r
}

/// Encodes the arguments of `add_elements`.
pub fn encode_add_args(group_id: u32, members: &Vec<Vec<u8>>) -> (r: Vec<u8>)
    requires
        members@.len() <= u32::MAX,
    ensures
        r@ == enc_add_args(group_id, members@),
{
    let mut out: Vec<u8> = Vec::new();
    push_u32(&mut out, group_id);
    push_scalars(&mut out, members);
    assert(out@ =~= enc_add_args(group_id, members@));
    out
}

/// Decodes the arguments of `add_elements`; the buffer must hold exactly one
/// encoding.
pub fn decode_add_args(buf: &Vec<u8>) -> (r: Result<(u32, Vec<Vec<u8>>), PalletMerkleExtError>)
    ensures
        r matches Ok((g, m)) ==> scalars_ok(m@) && enc_add_args(g, m@) == buf@,
        r is Err ==> r == Err::<(u32, Vec<Vec<u8>>), _>(PalletMerkleExtError::EncodingFailed),
        forall|g: u32, m: Seq<Vec<u8>>|
            scalars_ok(m) && #[trigger] enc_add_args(g, m) == buf@ ==> (r matches Ok((g2, m2)) && g2 == g
                && scalar_views(m2@) == scalar_views(m)),
{
    let r = match read_u32(buf, 0) {
        None => Err(PalletMerkleExtError::EncodingFailed),
        Some((g, p1)) => match read_scalars(buf, p1) {
            None => Err(PalletMerkleExtError::EncodingFailed),
            Some((m, p2)) => {
                if p2 == buf.len() {
                    proof {
                        lemma_join(buf@, 0, p1 as int, p2 as int, enc_u32(g), enc_scalars(m@));
                        assert(buf@.subrange(0, p2 as int) =~= buf@);
                    }
                    Ok((g, m))
                } else {
                    Err(PalletMerkleExtError::EncodingFailed)
                }
            },
        },
    };
    proof {
        assert forall|g: u32, m: Seq<Vec<u8>>|
            scalars_ok(m) && #[trigger] enc_add_args(g, m) == buf@ implies (r matches Ok((g2, m2)) && g2 == g
                && scalar_views(m2@) == scalar_views(m)) by {
            assert(buf@.subrange(0, buf@.len() as int) =~= buf@);
            lemma_split(buf@, 0, enc_u32(g), enc_scalars(m));
        }
    }
    r
}


/// Encodes the arguments of `verify_group`.
pub fn encode_request(r: &MembershipProofRequest) -> (out: Vec<u8>)
    requires
        request_wf(*r),
    ensures
        out@ == enc_request(*r),
{
    let mut out: Vec<u8> = Vec::new();
    push_u32(&mut out, r.group_id);
    push_scalar(&mut out, &r.cached_root);
    push_scalars(&mut out, &r.commitments);
    push_scalar(&mut out, &r.nullifier_hash);
    push_bytes(&mut out, &r.proof_bytes);
    push_scalars(&mut out, &r.leaf_index_commitments);
    push_scalars(&mut out, &r.proof_commitments);
    push_scalar(&mut out, &r.recipient);
    push_scalar(&mut out, &r.relayer);
    assert(out@ =~= enc_request(*r));
    out
}

/// Decodes the arguments of `verify_group`; the buffer must hold exactly one
/// encoding.
#[verifier::rlimit(40)]
pub fn decode_request(buf: &Vec<u8>) -> (r: Result<MembershipProofRequest, PalletMerkleExtError>)
    ensures
        r matches Ok(v) ==> request_wf(v) && enc_request(v) == buf@,
        r is Err ==> r == Err::<MembershipProofRequest, _>(PalletMerkleExtError::EncodingFailed),
        forall|v: MembershipProofRequest|
            request_wf(v) && #[trigger] enc_request(v) == buf@ ==> (r matches Ok(w) && same_request(w, v)),
{
    let e = PalletMerkleExtError::EncodingFailed;
    let r = match read_u32(buf, 0) {
        None => Err(e),
        Some((group_id, p1)) => match read_scalar(buf, p1) {
            None => Err(e),
            Some((cached_root, p2)) => match read_scalars(buf, p2) {
                None => Err(e),
                Some((commitments, p3)) => match read_scalar(buf, p3) {
                    None => Err(e),
                    Some((nullifier_hash, p4)) => match read_bytes(buf, p4) {
                        None => Err(e),
                        Some((proof_bytes, p5)) => match read_scalars(buf, p5) {
                            None => Err(e),
                            Some((leaf_index_commitments, p6)) => match read_scalars(buf, p6) {
                                None => Err(e),
                                Some((proof_commitments, p7)) => match read_scalar(buf, p7) {
                                    None => Err(e),
                                    Some((recipient, p8)) => match read_scalar(buf, p8) {
                                        None => Err(e),
                                        Some((relayer, p9)) => {
                                            if p9 == buf.len() {
                                                let v = MembershipProofRequest {
                                                    group_id,
                                                    cached_root,
                                                    commitments,
                                                    nullifier_hash,
                                                    proof_bytes,
                                                    leaf_index_commitments,
                                                    proof_commitments,
                                                    recipient,
                                                    relayer,
                                                };
                                                proof {
                                                    let b = buf@;
                                                    let e1 = enc_u32(v.group_id);
                                                    let e2 = e1 + v.cached_root@;
                                                    let e3 = e2 + enc_scalars(v.commitments@);
                                                    let e4 = e3 + v.nullifier_hash@;
                                                    let e5 = e4 + enc_bytes(v.proof_bytes@);
                                                    let e6 = e5 + enc_scalars(v.leaf_index_commitments@);
                                                    let e7 = e6 + enc_scalars(v.proof_commitments@);
                                                    let e8 = e7 + v.recipient@;
                                                    lemma_join(b, 0, p1 as int, p2 as int, e1, v.cached_root@);
                                                    lemma_join(b, 0, p2 as int, p3 as int, e2, enc_scalars(v.commitments@));
                                                    lemma_join(b, 0, p3 as int, p4 as int, e3, v.nullifier_hash@);
                                                    lemma_join(b, 0, p4 as int, p5 as int, e4, enc_bytes(v.proof_bytes@));
                                                    lemma_join(b, 0, p5 as int, p6 as int, e5, enc_scalars(v.leaf_index_commitments@));
                                                    lemma_join(b, 0, p6 as int, p7 as int, e6, enc_scalars(v.proof_commitments@));
                                                    lemma_join(b, 0, p7 as int, p8 as int, e7, v.recipient@);
                                                    lemma_join(b, 0, p8 as int, p9 as int, e8, v.relayer@);
                                                    assert(b.subrange(0, p9 as int) =~= b);
                                                }
                                                Ok(v)
                                            } else {
                                                Err(e)
                                            }
                                        },
                                    },
                                },
                            },
                        },
                    },
                },
            },
        },
    };
    proof {
        assert forall|v: MembershipProofRequest|
            request_wf(v) && #[trigger] enc_request(v) == buf@ implies (r matches Ok(w) && same_request(w, v)) by {
            let b = buf@;
            let e1 = enc_u32(v.group_id);
            let e2 = e1 + v.cached_root@;
            let e3 = e2 + enc_scalars(v.commitments@);
            let e4 = e3 + v.nullifier_hash@;
            let e5 = e4 + enc_bytes(v.proof_bytes@);
            let e6 = e5 + enc_scalars(v.leaf_index_commitments@);
            let e7 = e6 + enc_scalars(v.proof_commitments@);
            let e8 = e7 + v.recipient@;
            assert(b.subrange(0, b.len() as int) =~= b);
            lemma_split(b, 0, e8, v.relayer@);
            lemma_split(b, 0, e7, v.recipient@);
            lemma_split(b, 0, e6, enc_scalars(v.proof_commitments@));
            lemma_split(b, 0, e5, enc_scalars(v.leaf_index_commitments@));
            lemma_split(b, 0, e4, enc_bytes(v.proof_bytes@));
            lemma_split(b, 0, e3, v.nullifier_hash@);
            lemma_split(b, 0, e2, enc_scalars(v.commitments@));
            lemma_split(b, 0, e1, v.cached_root@);
        }
    }
    r
}


proof fn lemma_u64_injective(a: u64, b: u64)
    requires
        enc_u64(a) == enc_u64(b),
    ensures
        a == b,
{
    lemma_u64_round_trip(a);
    lemma_u64_round_trip(b);
}

/// Distinct accounting metadata encode to distinct bytes.
pub proof fn lemma_info_injective(a: CustomPostDispatchInfo, b: CustomPostDispatchInfo)
    requires
        enc_info(a) == enc_info(b),
    ensures
        a == b,
{
    let (ea, eb) = (enc_info(a), enc_info(b));
    assert(ea[0] == eb[0]);
    assert(enc_opt_u64(a.actual_weight)[0] == ea[0]);
    assert(enc_opt_u64(b.actual_weight)[0] == eb[0]);
    if let Some(x) = a.actual_weight {
        let y = b.actual_weight->Some_0;
        assert(enc_u64(x) =~= ea.subrange(1, 9));
        assert(enc_u64(y) =~= eb.subrange(1, 9));
        lemma_u64_injective(x, y);
        assert(ea[9] == eb[9]);
        assert(enc_pays(a.pays_fee)[0] == ea[9]);
        assert(enc_pays(b.pays_fee)[0] == eb[9]);
    } else {
        assert(ea[1] == eb[1]);
        assert(enc_pays(a.pays_fee)[0] == ea[1]);
        assert(enc_pays(b.pays_fee)[0] == eb[1]);
    }
}

/// Distinct `create_group` results encode to distinct bytes.
pub proof fn lemma_create_result_injective(
    g1: GroupDescriptor,
    i1: CustomPostDispatchInfo,
    g2: GroupDescriptor,
    i2: CustomPostDispatchInfo,
)
    requires
        enc_create_result(g1, i1) == enc_create_result(g2, i2),
    ensures
        g1 == g2,
        i1 == i2,
{
    let (e1, e2) = (enc_create_result(g1, i1), enc_create_result(g2, i2));
    assert(enc_u32(g1.id) =~= e1.subrange(0, 4));
    assert(enc_u32(g2.id) =~= e2.subrange(0, 4));
    lemma_u32_round_trip(g1.id);
    lemma_u32_round_trip(g2.id);
    assert(e1[4] == e2[4] && e1[5] == e2[5]);
    assert(enc_bool(g1.manager_restricted)[0] == e1[4]);
    assert(enc_bool(g2.manager_restricted)[0] == e2[4]);
    assert(enc_opt_u8(g1.depth)[0] == e1[5]);
    assert(enc_opt_u8(g2.depth)[0] == e2[5]);
    let k = enc_descriptor(g1).len();
    if g1.depth is Some {
        assert(enc_opt_u8(g1.depth)[1] == e1[6]);
        assert(enc_opt_u8(g2.depth)[1] == e2[6]);
        assert(e1[6] == e2[6]);
    }
    assert(enc_descriptor(g1).len() == enc_descriptor(g2).len());
    assert(enc_info(i1) =~= e1.subrange(k as int, e1.len() as int));
    assert(enc_info(i2) =~= e2.subrange(k as int, e2.len() as int));
    lemma_info_injective(i1, i2);
}

} // verus!
