//! Data carried by the service: invitee records, invitations, and the
//! update parameters applied to an invitee, together with the textual
//! RSVP encoding used by the invitee store.

use vstd::prelude::*;
use vstd::string::StrSliceExecFns;
use vstd::string::StringExecFns;

verus! {

/// Mathematical value of an [`InviteeDTO`].
pub struct InviteeView {
    pub id: Seq<char>,
    pub fname: Seq<char>,
    pub lname: Seq<char>,
    pub rsvp: Option<bool>,
    pub dietary_requirements: Seq<char>,
}

/// One person with an RSVP and dietary-requirements record.
///
/// `rsvp` is `Some(true)` when the invitee is coming, `Some(false)` when
/// not coming, and `None` while the answer is unknown.
#[derive(Clone, Debug, PartialEq)]
pub struct InviteeDTO {
    pub id: String,
    pub fname: String,
    pub lname: String,
    pub rsvp: Option<bool>,
    pub dietary_requirements: String,
}

impl View for InviteeDTO {
    type V = InviteeView;

    open spec fn view(&self) -> InviteeView {
        InviteeView {
            id: self.id@,
            fname: self.fname@,
            lname: self.lname@,
            rsvp: self.rsvp,
            dietary_requirements: self.dietary_requirements@,
        }
    }
}

/// Mathematical value of an [`InvitationATO`].
pub struct InvitationView {
    pub primary_invitee: InviteeView,
    pub dependents: Seq<InviteeView>,
}

/// A read-time composition: one primary invitee plus the invitees that
/// depend on it. The primary invitee is always present; the dependents
/// list may be empty.
#[derive(Clone, Debug, PartialEq)]
pub struct InvitationATO {
    pub primary_invitee: InviteeDTO,
    pub dependents: Vec<InviteeDTO>,
}

impl View for InvitationATO {
    type V = InvitationView;

    open spec fn view(&self) -> InvitationView {
        InvitationView {
            primary_invitee: self.primary_invitee@,
            dependents: self.dependents@.map_values(|d: InviteeDTO| d@),
        }
    }
}

/// Mathematical value of an [`UpdateInviteeParams`].
pub struct UpdateParamsView {
    pub id: Seq<char>,
    pub rsvp: Option<bool>,
    pub dietary_requirements: Seq<char>,
}

/// The fields written back to an invitee row: the target id, the new
/// RSVP answer and the new dietary requirements.
pub struct UpdateInviteeParams {
    pub id: String,
    pub rsvp: Option<bool>,
    pub dietary_requirements: String,
}

impl View for UpdateInviteeParams {
    type V = UpdateParamsView;

    open spec fn view(&self) -> UpdateParamsView {
        UpdateParamsView {
            id: self.id@,
            rsvp: self.rsvp,
            dietary_requirements: self.dietary_requirements@,
        }
    }
}

/// The update parameters drawn from an invitee record.
pub open spec fn params_of(v: InviteeView) -> UpdateParamsView {
    UpdateParamsView { id: v.id, rsvp: v.rsvp, dietary_requirements: v.dietary_requirements }
}

impl UpdateInviteeParams {
    /// Take the id, RSVP and dietary requirements of an invitee as
    /// update parameters.
    pub fn from_invitee(a: &InviteeDTO) -> (p: UpdateInviteeParams)
        ensures
            p@ == params_of(a@),
    {
        UpdateInviteeParams {
            id: a.id.clone(),
            rsvp: a.rsvp,
            dietary_requirements: a.dietary_requirements.clone(),
        }
    }
}

/// The RSVP answer denoted by the text stored in the invitee store.
pub open spec fn rsvp_of_text(s: Seq<char>) -> Option<bool> {
    if s == "NotComing"@ {
        Some(false)
    } else if s == "Coming"@ {
        Some(true)
    } else {
        None
    }
}

/// The text under which an RSVP answer is stored.
pub open spec fn text_of_rsvp(r: Option<bool>) -> Seq<char> {
    match r {
        Some(true) => "Coming"@,
        Some(false) => "NotComing"@,
        None => "Unknown"@,
    }
}

/// Decode a stored RSVP text: `"NotComing"` means not coming, `"Coming"`
/// means coming, and anything else counts as no answer yet.
pub fn rsvp_from_text(s: &String) -> (r: Option<bool>)
    ensures
        r == rsvp_of_text(s@),
{
    let not_coming = String::from_str("NotComing");
    let coming = String::from_str("Coming");
    if *s == not_coming {
        Some(false)
    } else if *s == coming {
        Some(true)
    } else {
        None
    }
}

/// Encode an RSVP answer as the text the invitee store keeps.
pub fn rsvp_to_text(r: Option<bool>) -> (t: String)
    ensures
        t@ == text_of_rsvp(r),
{
    match r {
        Some(true) => String::from_str("Coming"),
        Some(false) => String::from_str("NotComing"),
        None => String::from_str("Unknown"),
    }
}

/// Encoding an RSVP answer and decoding the text again gives the answer
/// back unchanged.
pub proof fn lemma_rsvp_text_round_trip(r: Option<bool>)
    ensures
        rsvp_of_text(text_of_rsvp(r)) == r,
{
    reveal_strlit("Coming");
    reveal_strlit("NotComing");
    reveal_strlit("Unknown");
    assert("Coming"@.len() == 6);
    assert("NotComing"@.len() == 9);
    assert("Unknown"@.len() == 7);
}

/// Character-for-character string comparison, the equality test used
/// throughout the library.
pub fn str_eq(a: &str, b: &str) -> (r: bool)
    ensures
        r == (a@ == b@),
{
    let na = a.unicode_len();
    let nb = b.unicode_len();
    if na != nb {
        return false;
    }
    let mut i: usize = 0;
    while i < na
        invariant
            i <= na,
            na == a@.len(),
            na == b@.len(),
            forall|j: int| 0 <= j < i ==> a@[j] == b@[j],
        decreases na - i,
    {
        if a.get_char(i) != b.get_char(i) {
            return false;
        }
        i += 1;
    }
    proof {
        assert(a@ =~= b@);
    }
    true
}

/// Copy an invitee record field by field.
pub fn copy_invitee(d: &InviteeDTO) -> (r: InviteeDTO)
    ensures
        r@ == d@,
{
    InviteeDTO {
        id: d.id.clone(),
        fname: d.fname.clone(),
        lname: d.lname.clone(),
        rsvp: d.rsvp,
        dietary_requirements: d.dietary_requirements.clone(),
    }
}

} // verus!
