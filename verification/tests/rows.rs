use wedding_funcs::db::{collect_invitees, lookup_invitee, InviteeRow, RowError};
use wedding_funcs::func::RepoErr;
use wedding_funcs::models::InviteeDTO;

fn full_row(id: &str, rsvp: &str) -> InviteeRow {
    InviteeRow {
        id: Some(String::from(id)),
        fname: Some(String::from("Test1")),
        lname: Some(String::from("1")),
        rsvp: Some(String::from(rsvp)),
        dietary_requirements: Some(String::from("something")),
    }
}

#[test]
fn row_decodes_to_invitee() {
    let row = full_row("a", "Coming");
    let d = InviteeDTO::from_row(&row).expect("row should decode");
    assert_eq!(d.id, "a");
    assert_eq!(d.fname, "Test1");
    assert_eq!(d.lname, "1");
    assert_eq!(d.rsvp, Some(true));
    assert_eq!(d.dietary_requirements, "something");
}

#[test]
fn row_with_unknown_rsvp_text_decodes_to_no_answer() {
    let row = full_row("a", "UNKNOWN");
    let d = InviteeDTO::from_row(&row).expect("row should decode");
    assert_eq!(d.rsvp, None);
}

#[test]
fn row_reports_first_missing_column() {
    let mut row = full_row("a", "Coming");
    row.fname = None;
    row.rsvp = None;
    assert_eq!(InviteeDTO::from_row(&row), Err(RowError::MissingFname));

    let mut row = full_row("a", "Coming");
    row.id = None;
    row.dietary_requirements = None;
    assert_eq!(InviteeDTO::from_row(&row), Err(RowError::MissingId));

    let mut row = full_row("a", "Coming");
    row.dietary_requirements = None;
    assert_eq!(
        InviteeDTO::from_row(&row),
        Err(RowError::MissingDietaryRequirements)
    );
}

#[test]
fn row_error_messages_name_the_column() {
    assert_eq!(RowError::MissingId.message(), "Could not convert id");
    assert_eq!(RowError::MissingFname.message(), "Could not convert fname");
    assert_eq!(RowError::MissingLname.message(), "Could not convert lname");
    assert_eq!(RowError::MissingRsvp.message(), "Could not convert rsvp");
    assert_eq!(
        RowError::MissingDietaryRequirements.message(),
        "Could not convert dietary_requirements"
    );
}

#[test]
fn lookup_without_row_is_not_found() {
    let r = lookup_invitee("missing-id", None);
    assert_eq!(r, Err(RepoErr::ItemNotFound(String::from("missing-id"))));
}

#[test]
fn lookup_with_bad_row_is_db_failure() {
    let mut row = full_row("a", "Coming");
    row.lname = None;
    let r = lookup_invitee("a", Some(&row));
    assert_eq!(
        r,
        Err(RepoErr::DBFailure(String::from("Could not convert lname")))
    );
}

#[test]
fn lookup_with_good_row_is_the_record() {
    let row = full_row("a", "NotComing");
    let d = lookup_invitee("a", Some(&row)).expect("row should decode");
    assert_eq!(d.id, "a");
    assert_eq!(d.rsvp, Some(false));
}

#[test]
fn collect_decodes_all_rows_in_order() {
    let rows = vec![full_row("a", "Coming"), full_row("b", "Unknown")];
    let ds = collect_invitees(&rows).expect("rows should decode");
    assert_eq!(ds.len(), 2);
    assert_eq!(ds[0].id, "a");
    assert_eq!(ds[0].rsvp, Some(true));
    assert_eq!(ds[1].id, "b");
    assert_eq!(ds[1].rsvp, None);
}

#[test]
fn collect_stops_at_first_bad_row() {
    let mut bad = full_row("b", "Coming");
    bad.rsvp = None;
    let mut worse = full_row("c", "Coming");
    worse.id = None;
    let rows = vec![full_row("a", "Coming"), bad, worse];
    let r = collect_invitees(&rows);
    assert_eq!(
        r,
        Err(RepoErr::DBFailure(String::from("Could not convert rsvp")))
    );
}
