//! The request surface: the tagged payload an invocation carries and
//! the errors an operation can answer with.

use vstd::prelude::*;

use crate::models::InvitationATO;
use crate::func::{fetch_invitation, fetch_post, update_invitation, update_post, InviteeRepo, RelationRepo, RepoErr};

verus! {

/// Why a request failed: a storage error, or an argument that could not
/// be understood (a missing or malformed payload).
#[derive(Clone, Debug, PartialEq)]
pub enum ApiErr {
    RepoErr(RepoErr),
    ArgumentErr(String),
}

/// A parsed request: the operation to run together with its parameters.
#[derive(Clone, Debug, PartialEq)]
pub enum Payload {
    FetchInvitation { id: String },
    UpdateInvitation { invitation: InvitationATO },
}


/// Dispatch a parsed request to the operation it names, with the given
/// storage. The promises of [`crate::func::fetch_invitation`] and
/// [`crate::func::update_invitation`] carry over per payload case.
pub fn handle_request<T: InviteeRepo + RelationRepo>(params: Payload, db: T) -> (r: Result<
    InvitationATO,
    ApiErr,
>)
    ensures
        params matches Payload::FetchInvitation { id } ==> fetch_post(
            db.invitees(),
            db.dependents_of(id@),
            db.invitees_reliable() && db.relations_reliable(),
            id@,
            r,
        ),
        params matches Payload::UpdateInvitation { invitation } ==> update_post(
            db.invitees(),
            db.invitees_reliable(),
            invitation@,
            r,
        ),
{
    match params {
        Payload::FetchInvitation { id } => fetch_invitation(id.as_str(), db),
        Payload::UpdateInvitation { invitation } => {
            let mut db = db;
            update_invitation(&invitation, &mut db)
        },
    }
}

} // verus!
