//! The fixed table of operation identifiers. The numbers are a wire
//! contract and never change once shipped.
use vstd::prelude::*;

verus! {

/// Identifier of `create_group`.
pub const CREATE_GROUP_ID: u32 = 1101;
/// Identifier of `add_elements`.
pub const ADD_ELEMENTS_ID: u32 = 1102;
/// Identifier of `verify_group`.
pub const VERIFY_GROUP_ID: u32 = 1103;

/// The operations a sandbox can ask of the host.
#[derive(Debug, Clone, Copy, PartialEq, Eq, Structural)]
pub enum Operation {
    CreateGroup,
    AddElements,
    VerifyGroup,
}

/// The identifier under which `op` is called.
pub open spec fn id_spec(op: Operation) -> u32 {
    match op {
        Operation::CreateGroup => CREATE_GROUP_ID,
        Operation::AddElements => ADD_ELEMENTS_ID,
        Operation::VerifyGroup => VERIFY_GROUP_ID,
    }
}

/// The operation registered under `id`, if any.
pub open spec fn operation_spec(id: u32) -> Option<Operation> {
    if id == CREATE_GROUP_ID {
        Some(Operation::CreateGroup)
    } else if id == ADD_ELEMENTS_ID {
        Some(Operation::AddElements)
    } else if id == VERIFY_GROUP_ID {
        Some(Operation::VerifyGroup)
    } else {
        None
    }
}

impl Operation {
    /// Looks up the operation registered under `id`.
    pub fn from_id(id: u32) -> (r: Option<Operation>)
        ensures
            r == operation_spec(id),
    {
        match id {
            CREATE_GROUP_ID => Some(Operation::CreateGroup),
            ADD_ELEMENTS_ID => Some(Operation::AddElements),
            VERIFY_GROUP_ID => Some(Operation::VerifyGroup),
            _ => None,
        }
    }

    /// The identifier under which this operation is called.
    pub fn id(&self) -> (r: u32)
        ensures
            r == id_spec(*self),
    {
        match self {
            Operation::CreateGroup => CREATE_GROUP_ID,
            Operation::AddElements => ADD_ELEMENTS_ID,
            Operation::VerifyGroup => VERIFY_GROUP_ID,
        }
    }
}

/// Every identifier the client emits has exactly one handler: looking an
/// operation's identifier up finds that operation, and an identifier that is
/// found is that operation's own.
pub proof fn lemma_registry_one_to_one(op: Operation, id: u32)
    ensures
        operation_spec(id_spec(op)) == Some(op),
        operation_spec(id) == Some(op) ==> id_spec(op) == id,
{
}

} // verus!
