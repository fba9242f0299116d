use vstd::prelude::*;

verus! {

/// Status code for `InvalidCall`.
pub const STATUS_INVALID_CALL: u32 = 1;
/// Status code for `EncodingFailed`.
pub const STATUS_ENCODING_FAILED: u32 = 2;
/// Status code for `HostDispatchFailed`.
pub const STATUS_HOST_DISPATCH_FAILED: u32 = 3;
/// Status code for `UnknownOperation`.
pub const STATUS_UNKNOWN_OPERATION: u32 = 4;
/// Status code for `GroupCreationFailed`.
pub const STATUS_GROUP_CREATION_FAILED: u32 = 1101;
/// Status code for `MemberInsertionFailed`.
pub const STATUS_MEMBER_INSERTION_FAILED: u32 = 1102;
/// Status code for `MembershipVerificationFailed`.
pub const STATUS_MEMBERSHIP_VERIFICATION_FAILED: u32 = 1103;

/// The closed set of failures visible to sandboxed callers.
#[derive(Debug, Clone, Copy, PartialEq, Eq, Structural)]
pub enum PalletMerkleExtError {
    /// Arguments were malformed or rejected before crossing the boundary.
    InvalidCall,
    /// The host could not create the group.
    GroupCreationFailed,
    /// The host could not insert the members.
    MemberInsertionFailed,
    /// The host rejected the membership proof.
    MembershipVerificationFailed,
    /// A buffer could not be encoded or decoded.
    EncodingFailed,
    /// The host failed to dispatch the call.
    HostDispatchFailed,
    /// The operation identifier is not registered.
    UnknownOperation,
    /// A status code outside the known taxonomy.
    UnknownStatus(u32),
}

/// Whether `code` is the status of one of the known (non-catch-all) kinds.
pub open spec fn is_known_status(code: u32) -> bool {
    code == STATUS_INVALID_CALL || code == STATUS_ENCODING_FAILED
        || code == STATUS_HOST_DISPATCH_FAILED || code == STATUS_UNKNOWN_OPERATION
        || code == STATUS_GROUP_CREATION_FAILED || code == STATUS_MEMBER_INSERTION_FAILED
        || code == STATUS_MEMBERSHIP_VERIFICATION_FAILED
}

/// Whether `e` is one of the known kinds, that is anything but `UnknownStatus`.
pub open spec fn is_known_kind(e: PalletMerkleExtError) -> bool {
    !(e is UnknownStatus)
}

/// The status code that carries `e` across the boundary.
pub open spec fn status_of(e: PalletMerkleExtError) -> u32 {
    match e {
        PalletMerkleExtError::InvalidCall => STATUS_INVALID_CALL,
        PalletMerkleExtError::GroupCreationFailed => STATUS_GROUP_CREATION_FAILED,
        PalletMerkleExtError::MemberInsertionFailed => STATUS_MEMBER_INSERTION_FAILED,
        PalletMerkleExtError::MembershipVerificationFailed => STATUS_MEMBERSHIP_VERIFICATION_FAILED,
        PalletMerkleExtError::EncodingFailed => STATUS_ENCODING_FAILED,
        PalletMerkleExtError::HostDispatchFailed => STATUS_HOST_DISPATCH_FAILED,
        PalletMerkleExtError::UnknownOperation => STATUS_UNKNOWN_OPERATION,
        PalletMerkleExtError::UnknownStatus(code) => code,
    }
}

/// What a status code means to the caller: `0` is success, a known code its
/// kind, and any other code `UnknownStatus` of itself.
pub open spec fn result_of_status(code: u32) -> Result<(), PalletMerkleExtError> {
    if code == 0 {
        Ok(())
    } else if code == STATUS_INVALID_CALL {
        Err(PalletMerkleExtError::InvalidCall)
    } else if code == STATUS_ENCODING_FAILED {
        Err(PalletMerkleExtError::EncodingFailed)
    } else if code == STATUS_HOST_DISPATCH_FAILED {
        Err(PalletMerkleExtError::HostDispatchFailed)
    } else if code == STATUS_UNKNOWN_OPERATION {
        Err(PalletMerkleExtError::UnknownOperation)
    } else if code == STATUS_GROUP_CREATION_FAILED {
        Err(PalletMerkleExtError::GroupCreationFailed)
    } else if code == STATUS_MEMBER_INSERTION_FAILED {
        Err(PalletMerkleExtError::MemberInsertionFailed)
    } else if code == STATUS_MEMBERSHIP_VERIFICATION_FAILED {
        Err(PalletMerkleExtError::MembershipVerificationFailed)
    } else {
        Err(PalletMerkleExtError::UnknownStatus(code))
    }
}

impl PalletMerkleExtError {
    /// Interprets a status code returned across the boundary. Total: every
    /// code yields a value.
    pub fn from_status_code(status_code: u32) -> (r: Result<(), PalletMerkleExtError>)
        ensures
            r == result_of_status(status_code),
    {
        match status_code {
            0 => Ok(()),
            STATUS_INVALID_CALL => Err(PalletMerkleExtError::InvalidCall),
            STATUS_ENCODING_FAILED => Err(PalletMerkleExtError::EncodingFailed),
            STATUS_HOST_DISPATCH_FAILED => Err(PalletMerkleExtError::HostDispatchFailed),
            STATUS_UNKNOWN_OPERATION => Err(PalletMerkleExtError::UnknownOperation),
            STATUS_GROUP_CREATION_FAILED => Err(PalletMerkleExtError::GroupCreationFailed),
            STATUS_MEMBER_INSERTION_FAILED => Err(PalletMerkleExtError::MemberInsertionFailed),
            STATUS_MEMBERSHIP_VERIFICATION_FAILED => Err(
                PalletMerkleExtError::MembershipVerificationFailed,
            ),
            _ => Err(PalletMerkleExtError::UnknownStatus(status_code)),
        }
    }

    /// The status code that carries this error across the boundary.
    pub fn to_status_code(&self) -> (r: u32)
        ensures
            r == status_of(*self),
    {
        match self {
            PalletMerkleExtError::InvalidCall => STATUS_INVALID_CALL,
            PalletMerkleExtError::GroupCreationFailed => STATUS_GROUP_CREATION_FAILED,
            PalletMerkleExtError::MemberInsertionFailed => STATUS_MEMBER_INSERTION_FAILED,
            PalletMerkleExtError::MembershipVerificationFailed => STATUS_MEMBERSHIP_VERIFICATION_FAILED,
            PalletMerkleExtError::EncodingFailed => STATUS_ENCODING_FAILED,
            PalletMerkleExtError::HostDispatchFailed => STATUS_HOST_DISPATCH_FAILED,
            PalletMerkleExtError::UnknownOperation => STATUS_UNKNOWN_OPERATION,
            PalletMerkleExtError::UnknownStatus(code) => *code,
        }
    }
}

/// Every status code, zero included, is interpreted: zero as success and
/// every other code as exactly one error, which carries the code back.
pub proof fn lemma_status_mapping_total(code: u32)
    ensures
        (result_of_status(code) is Ok) <==> code == 0,
        result_of_status(code) is Err ==> status_of(result_of_status(code)->Err_0) == code,
        !is_known_status(code) && code != 0 ==> result_of_status(code) == Err::<(), _>(
            PalletMerkleExtError::UnknownStatus(code),
        ),
{
}

/// Distinct known kinds travel under distinct, non-zero status codes.
pub proof fn lemma_status_injective(a: PalletMerkleExtError, b: PalletMerkleExtError)
    requires
        is_known_kind(a),
        is_known_kind(b),
        a != b,
    ensures
        status_of(a) != 0,
        status_of(a) != status_of(b),
        is_known_status(status_of(a)),
{
}

/// A known kind, or an unknown status with a code outside the taxonomy,
/// survives the trip through its status code unchanged.
pub proof fn lemma_status_round_trip(e: PalletMerkleExtError)
    requires
        is_known_kind(e) || (!is_known_status(status_of(e)) && status_of(e) != 0),
    ensures
        result_of_status(status_of(e)) == Err::<(), _>(e),
{
}

} // verus!
