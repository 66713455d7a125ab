//! Which address must authorize each kind of request.

use vstd::prelude::*;
use crate::address::Address;
use crate::model::ContractView;

verus! {

/// The kinds of request the ledger serves, as far as authorization goes.
#[derive(Clone, Copy, PartialEq, Eq, Structural, Debug)]
pub enum Request {
    Initialize,
    ProposeNewAdmin,
    AcceptOwnership,
    SetToken,
    CreateVault,
    CreateBatch,
    InitializeVaultMetadata,
    Claim,
    Read,
}

/// The address whose authorization a request needs: the administrator for
/// the privileged requests, the proposed administrator for accepting
/// ownership, and nobody for the rest. With no such address recorded, the
/// request needs no authorization (the ledger then refuses the privileged
/// ones itself).
pub open spec fn authorizer(s: ContractView, request: Request) -> Option<Address> {
    match request {
        Request::ProposeNewAdmin | Request::SetToken | Request::CreateVault | Request::CreateBatch => s.admin,
        Request::AcceptOwnership => s.proposed_admin,
        _ => None,
    }
}

} // verus!
