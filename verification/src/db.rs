//! The checked part of the database layer: deciding and decoding over
//! fetched rows. The queries themselves run outside the library and
//! hand their rows in as plain values: each column either decoded to
//! text or marked missing.

use vstd::prelude::*;
use vstd::string::StringExecFns;

use crate::func::RepoErr;
use crate::models::{rsvp_from_text, rsvp_of_text, InviteeDTO, InviteeView};

verus! {

/// Mathematical value of an [`InviteeRow`].
pub struct RowView {
    pub id: Option<Seq<char>>,
    pub fname: Option<Seq<char>>,
    pub lname: Option<Seq<char>>,
    pub rsvp: Option<Seq<char>>,
    pub dietary_requirements: Option<Seq<char>>,
}

/// One fetched invitee row, column by column: `None` where the column
/// could not be read as text.
#[derive(Clone, Debug, PartialEq)]
pub struct InviteeRow {
    pub id: Option<String>,
    pub fname: Option<String>,
    pub lname: Option<String>,
    pub rsvp: Option<String>,
    pub dietary_requirements: Option<String>,
}

impl View for InviteeRow {
    type V = RowView;

    open spec fn view(&self) -> RowView {
        RowView {
            id: match self.id {
                Some(s) => Some(s@),
                None => None,
            },
            fname: match self.fname {
                Some(s) => Some(s@),
                None => None,
            },
            lname: match self.lname {
                Some(s) => Some(s@),
                None => None,
            },
            rsvp: match self.rsvp {
                Some(s) => Some(s@),
                None => None,
            },
            dietary_requirements: match self.dietary_requirements {
                Some(s) => Some(s@),
                None => None,
            },
        }
    }
}

/// The first column of a row that could not be read, in column order.
#[derive(Clone, Copy, Debug, PartialEq, Eq)]
pub enum RowError {
    MissingId,
    MissingFname,
    MissingLname,
    MissingRsvp,
    MissingDietaryRequirements,
}

impl RowError {
    /// The description a store failure carries for this column.
    pub open spec fn message_view(self) -> Seq<char> {
        match self {
            RowError::MissingId => "Could not convert id"@,
            RowError::MissingFname => "Could not convert fname"@,
            RowError::MissingLname => "Could not convert lname"@,
            RowError::MissingRsvp => "Could not convert rsvp"@,
            RowError::MissingDietaryRequirements => "Could not convert dietary_requirements"@,
        }
    }

    /// Spell the description out.
    pub fn message(&self) -> (m: String)
        ensures
            m@ == self.message_view(),
    {
        match self {
            RowError::MissingId => String::from_str("Could not convert id"),
            RowError::MissingFname => String::from_str("Could not convert fname"),
            RowError::MissingLname => String::from_str("Could not convert lname"),
            RowError::MissingRsvp => String::from_str("Could not convert rsvp"),
            RowError::MissingDietaryRequirements => String::from_str(
                "Could not convert dietary_requirements",
            ),
        }
    }
}

/// What a row decodes to: the invitee record with the RSVP text read as
/// an answer, or the first unreadable column.
pub open spec fn decode_row(w: RowView) -> Result<InviteeView, RowError> {
    match w.id {
        None => Err(RowError::MissingId),
        Some(id) => match w.fname {
            None => Err(RowError::MissingFname),
            Some(fname) => match w.lname {
                None => Err(RowError::MissingLname),
                Some(lname) => match w.rsvp {
                    None => Err(RowError::MissingRsvp),
                    Some(rsvp) => match w.dietary_requirements {
                        None => Err(RowError::MissingDietaryRequirements),
                        Some(dietary_requirements) => Ok(
                            InviteeView {
                                id,
                                fname,
                                lname,
                                rsvp: rsvp_of_text(rsvp),
                                dietary_requirements,
                            },
                        ),
                    },
                },
            },
        },
    }
}

impl InviteeDTO {
    /// Decode one fetched row into an invitee record.
    pub fn from_row(row: &InviteeRow) -> (r: Result<InviteeDTO, RowError>)
        ensures
            r matches Ok(v) ==> decode_row(row@) == Ok::<InviteeView, RowError>(v@),
            r matches Err(e) ==> decode_row(row@) == Err::<InviteeView, RowError>(e),
    {
        let id = match &row.id {
            Some(s) => s.clone(),
            None => {
                return Err(RowError::MissingId);
            },
        };
        let fname = match &row.fname {
            Some(s) => s.clone(),
            None => {
                return Err(RowError::MissingFname);
            },
        };
        let lname = match &row.lname {
            Some(s) => s.clone(),
            None => {
                return Err(RowError::MissingLname);
            },
        };
        let rsvp_text = match &row.rsvp {
            Some(s) => s.clone(),
            None => {
                return Err(RowError::MissingRsvp);
            },
        };
        let dietary_requirements = match &row.dietary_requirements {
            Some(s) => s.clone(),
            None => {
                return Err(RowError::MissingDietaryRequirements);
            },
        };
        let rsvp = rsvp_from_text(&rsvp_text);
        Ok(InviteeDTO { id, fname, lname, rsvp, dietary_requirements })
    }
}

/// How one looked-up row answers a by-id request: no row means the item
/// is not found under `id`; an unreadable row is a store failure
/// carrying the column's description; a readable row is the record.
pub fn lookup_invitee(id: &str, row: Option<&InviteeRow>) -> (r: Result<InviteeDTO, RepoErr>)
    ensures
        row is None ==> (r matches Err(RepoErr::ItemNotFound(x)) && x@ == id@),
        row matches Some(w) ==> match decode_row(w@) {
            Ok(v) => r matches Ok(u) && u@ == v,
            Err(e) => r matches Err(RepoErr::DBFailure(m)) && m@ == e.message_view(),
        },
{
    match row {
        None => Err(RepoErr::ItemNotFound(id.to_owned())),
        Some(w) => match InviteeDTO::from_row(w) {
            Ok(v) => Ok(v),
            Err(e) => Err(RepoErr::DBFailure(e.message())),
        },
    }
}

/// What a fetched batch decodes to: every row's record in row order, or
/// the first unreadable column over all rows.
pub open spec fn decode_rows(rs: Seq<RowView>) -> Result<Seq<InviteeView>, RowError>
    decreases rs.len(),
{
    if rs.len() == 0 {
        Ok(Seq::empty())
    } else {
        match decode_rows(rs.drop_last()) {
            Err(e) => Err(e),
            Ok(vs) => match decode_row(rs.last()) {
                Err(e) => Err(e),
                Ok(v) => Ok(vs.push(v)),
            },
        }
    }
}

/// A batch whose first rows decode and whose next row does not decodes
/// to that row's error.
proof fn lemma_decode_rows_first_err(rs: Seq<RowView>, i: int)
    requires
        0 <= i < rs.len(),
        decode_rows(rs.take(i)) is Ok,
        decode_row(rs[i]) is Err,
    ensures
        decode_rows(rs) is Err,
        decode_rows(rs) == Err::<Seq<InviteeView>, RowError>(decode_row(rs[i]).get_Err_0()),
    decreases rs.len(),
{
    if i == rs.len() - 1 {
        assert(rs.drop_last() =~= rs.take(i));
    } else {
        assert(rs.drop_last().take(i) =~= rs.take(i));
        lemma_decode_rows_first_err(rs.drop_last(), i);
    }
}

/// Decode a fetched batch of rows into invitee records: all of them, or
/// the store failure named by the first unreadable column.
pub fn collect_invitees(rows: &Vec<InviteeRow>) -> (r: Result<Vec<InviteeDTO>, RepoErr>)
    ensures
        r matches Ok(vs) ==> decode_rows(rows@.map_values(|w: InviteeRow| w@)) == Ok::<
            Seq<InviteeView>,
            RowError,
        >(vs@.map_values(|d: InviteeDTO| d@)),
        r matches Err(RepoErr::DBFailure(m)) ==> (decode_rows(
            rows@.map_values(|w: InviteeRow| w@),
        ) matches Err(e) && m@ == e.message_view()),
        r is Err ==> (r matches Err(RepoErr::DBFailure(_))),
        r is Ok <==> decode_rows(rows@.map_values(|w: InviteeRow| w@)) is Ok,
{
    let ghost rs = rows@.map_values(|w: InviteeRow| w@);
    let mut out: Vec<InviteeDTO> = Vec::new();
    proof {
        assert(rs.take(0) =~= Seq::<RowView>::empty());
        assert(out@.map_values(|d: InviteeDTO| d@) =~= Seq::<InviteeView>::empty());
    }
    let n = rows.len();
    let mut i: usize = 0;
    while i < n
        invariant
            0 <= i <= n,
            n == rows@.len(),
            rs == rows@.map_values(|w: InviteeRow| w@),
            decode_rows(rs.take(i as int)) == Ok::<Seq<InviteeView>, RowError>(
                out@.map_values(|d: InviteeDTO| d@),
            ),
        decreases n - i,
    {
        match InviteeDTO::from_row(&rows[i]) {
            Ok(v) => {
                proof {
                    assert(rs.take(i + 1).drop_last() =~= rs.take(i as int));
                    assert(out@.push(v).map_values(|d: InviteeDTO| d@) =~= out@.map_values(
                        |d: InviteeDTO| d@,
                    ).push(v@));
                }
                out.push(v);
            },
            Err(e) => {
                proof {
                    lemma_decode_rows_first_err(rs, i as int);
                }
                return Err(RepoErr::DBFailure(e.message()));
            },
        }
        i += 1;
    }
    proof {
        assert(rs.take(n as int) =~= rs);
    }
    Ok(out)
}

} // verus!
