//! Conversions between the host runtime's accounting metadata and the
//! bridge's own copies of it, and from the host codec's error.
use vstd::prelude::*;
use frame_support::dispatch::{Pays, PostDispatchInfo};
use frame_support::weights::Weight;
use crate::error::PalletMerkleExtError;
use crate::messages::{CustomPays, CustomPostDispatchInfo};

verus! {

/// The runtime's fee flag; Verus reads its two variants.
#[verifier::external_type_specification]
pub struct ExPays(Pays);

/// The runtime's weight; its fields are private, so it is opaque here.
#[verifier::external_type_specification]
#[verifier::external_body]
pub struct ExWeight(Weight);

/// The runtime's post-dispatch metadata; Verus reads its two public fields.
#[verifier::external_type_specification]
pub struct ExPostDispatchInfo(PostDispatchInfo);

/// The host codec's error; opaque.
#[verifier::external_type_specification]
#[verifier::external_body]
pub struct ExCodecError(parity_scale_codec::Error);

/// Relies on `Weight::ref_time`: the computation-time part of a weight,
/// which is what the bridge forwards as the work performed.
pub assume_specification[ Weight::ref_time ](w: &Weight) -> u64;

/// The bridge's fee flag for the runtime's.
pub open spec fn custom_pays(p: Pays) -> CustomPays {
    match p {
        Pays::Yes => CustomPays::Yes,
        Pays::No => CustomPays::No,
    }
}

/// The runtime's fee flag for the bridge's.
pub open spec fn runtime_pays(p: CustomPays) -> Pays {
    match p {
        CustomPays::Yes => Pays::Yes,
        CustomPays::No => Pays::No,
    }
}

impl From<Pays> for CustomPays {
    fn from(value: Pays) -> (r: CustomPays) {
        match value {
            Pays::Yes => CustomPays::Yes,
            Pays::No => CustomPays::No,
        }
    }
}

impl vstd::std_specs::convert::FromSpecImpl<Pays> for CustomPays {
    open spec fn obeys_from_spec() -> bool {
        true
    }

    open spec fn from_spec(v: Pays) -> CustomPays {
        custom_pays(v)
    }
}

impl From<CustomPays> for Pays {
    fn from(value: CustomPays) -> (r: Pays) {
        match value {
            CustomPays::Yes => Pays::Yes,
            CustomPays::No => Pays::No,
        }
    }
}

impl vstd::std_specs::convert::FromSpecImpl<CustomPays> for Pays {
    open spec fn obeys_from_spec() -> bool {
        true
    }

    open spec fn from_spec(v: CustomPays) -> Pays {
        runtime_pays(v)
    }
}

impl CustomPostDispatchInfo {
    /// The bridge's copy of the runtime's post-dispatch metadata: the fee
    /// flag carries over, and a measured weight becomes its computation time.
    /// The computation time is read with `Weight::ref_time` and forwarded by
    /// `from_parts`.
    pub fn from(value: PostDispatchInfo) -> (r: CustomPostDispatchInfo)
        ensures
            r.pays_fee == custom_pays(value.pays_fee),
            r.actual_weight is Some <==> value.actual_weight is Some,
    {
        let actual_ref_time = match &value.actual_weight {
            Some(w) => Some(w.ref_time()),
            None => None,
        };
        Self::from_parts(actual_ref_time, value.pays_fee)
    }

    /// Accounting metadata from the measured computation time, if any, and
    /// the runtime's fee flag: both are forwarded unchanged.
    pub fn from_parts(actual_ref_time: Option<u64>, pays_fee: Pays) -> (r: CustomPostDispatchInfo)
        ensures
            r.actual_weight == actual_ref_time,
            r.pays_fee == custom_pays(pays_fee),
    {
        let pays_fee = match pays_fee {
            Pays::Yes => CustomPays::Yes,
            Pays::No => CustomPays::No,
        };
        CustomPostDispatchInfo { actual_weight: actual_ref_time, pays_fee }
    }
}

impl From<parity_scale_codec::Error> for PalletMerkleExtError {
    fn from(_e: parity_scale_codec::Error) -> (r: PalletMerkleExtError) {
        PalletMerkleExtError::EncodingFailed
    }
}

impl vstd::std_specs::convert::FromSpecImpl<parity_scale_codec::Error> for PalletMerkleExtError {
    open spec fn obeys_from_spec() -> bool {
        true
    }

    open spec fn from_spec(v: parity_scale_codec::Error) -> PalletMerkleExtError {
        PalletMerkleExtError::EncodingFailed
    }
}

/// The two fee flags convert into each other and back unchanged.
pub proof fn lemma_pays_round_trip(p: Pays, c: CustomPays)
    ensures
        runtime_pays(custom_pays(p)) == p,
        custom_pays(runtime_pays(c)) == c,
{
}

} // verus!
