use wedding_funcs::api::{handle_request, ApiErr, Payload};
use wedding_funcs::func::{fetch_invitation, update_invitation, InviteeRepo, RepoErr};
use wedding_funcs::lambda::HttpError;
use wedding_funcs::mem::MemRepo;
use wedding_funcs::models::{InvitationATO, InviteeDTO};

fn invitee(id: &str, fname: &str) -> InviteeDTO {
    InviteeDTO {
        id: String::from(id),
        fname: String::from(fname),
        lname: String::from("L"),
        rsvp: None,
        dietary_requirements: String::from(""),
    }
}

fn family_repo() -> MemRepo {
    let mut repo = MemRepo::new();
    repo.add_invitee(invitee("p", "Parent"));
    repo.add_invitee(invitee("c1", "ChildOne"));
    repo.add_invitee(invitee("c2", "ChildTwo"));
    repo.add_relation(String::from("p"), String::from("c1"));
    repo.add_relation(String::from("p"), String::from("c2"));
    repo
}

#[test]
fn fetch_returns_primary_and_dependents() {
    let inv = fetch_invitation("p", family_repo()).expect("invitation should be found");
    assert_eq!(inv.primary_invitee.id, "p");
    assert_eq!(inv.primary_invitee.fname, "Parent");
    let mut dep_ids: Vec<String> = inv.dependents.iter().map(|d| d.id.clone()).collect();
    dep_ids.sort();
    assert_eq!(dep_ids, vec![String::from("c1"), String::from("c2")]);
}

#[test]
fn fetch_without_dependents_returns_empty_list() {
    let inv = fetch_invitation("c1", family_repo()).expect("invitation should be found");
    assert_eq!(inv.primary_invitee.id, "c1");
    assert!(inv.dependents.is_empty());
}

#[test]
fn fetch_of_missing_primary_is_not_found() {
    let r = fetch_invitation("nobody", family_repo());
    assert_eq!(
        r,
        Err(ApiErr::RepoErr(RepoErr::ItemNotFound(String::from(
            "nobody"
        ))))
    );
}

fn rsvp_all_yes(repo: &MemRepo) -> InvitationATO {
    let mut primary = repo.get_invitee_by_id("p").expect("primary exists");
    primary.rsvp = Some(true);
    primary.dietary_requirements = String::from("nut allergy");
    let mut dependents = Vec::new();
    for id in ["c1", "c2"] {
        let mut d = repo.get_invitee_by_id(id).expect("dependent exists");
        d.rsvp = Some(true);
        dependents.push(d);
    }
    InvitationATO { primary_invitee: primary, dependents }
}

#[test]
fn update_writes_primary_and_dependents() {
    let mut repo = family_repo();
    let invitation = rsvp_all_yes(&repo);
    let out = update_invitation(&invitation, &mut repo).expect("update should succeed");
    assert_eq!(out.primary_invitee.rsvp, Some(true));
    assert_eq!(out.primary_invitee.dietary_requirements, "nut allergy");
    assert_eq!(out.primary_invitee.fname, "Parent");
    assert_eq!(out.dependents.len(), 2);
    assert!(out.dependents.iter().all(|d| d.rsvp == Some(true)));

    let stored = repo.get_invitee_by_id("c2").expect("dependent exists");
    assert_eq!(stored.rsvp, Some(true));
    assert_eq!(stored.fname, "ChildTwo");
}

#[test]
fn update_with_missing_dependent_keeps_earlier_writes() {
    let mut repo = family_repo();
    let mut invitation = rsvp_all_yes(&repo);
    invitation.dependents[1].id = String::from("ghost");
    let r = update_invitation(&invitation, &mut repo);
    assert_eq!(
        r,
        Err(ApiErr::RepoErr(RepoErr::ItemNotFound(String::from(
            "ghost"
        ))))
    );
    let primary = repo.get_invitee_by_id("p").expect("primary exists");
    assert_eq!(primary.rsvp, Some(true));
    let first = repo.get_invitee_by_id("c1").expect("dependent exists");
    assert_eq!(first.rsvp, Some(true));
    let second = repo.get_invitee_by_id("c2").expect("dependent exists");
    assert_eq!(second.rsvp, None);
}

#[test]
fn update_of_missing_primary_is_not_found() {
    let mut repo = MemRepo::new();
    let invitation = InvitationATO {
        primary_invitee: invitee("p", "Parent"),
        dependents: vec![],
    };
    let r = update_invitation(&invitation, &mut repo);
    assert_eq!(
        r,
        Err(ApiErr::RepoErr(RepoErr::ItemNotFound(String::from("p"))))
    );
}

#[test]
fn handle_request_dispatches_by_payload() {
    let fetched = handle_request(
        Payload::FetchInvitation { id: String::from("p") },
        family_repo(),
    )
    .expect("fetch should succeed");
    assert_eq!(fetched.primary_invitee.id, "p");

    let repo = family_repo();
    let invitation = rsvp_all_yes(&repo);
    let updated = handle_request(Payload::UpdateInvitation { invitation }, repo)
        .expect("update should succeed");
    assert_eq!(updated.primary_invitee.rsvp, Some(true));
}

#[test]
fn http_error_maps_status_and_type() {
    let e = HttpError::from_repo_err(&RepoErr::ItemNotFound(String::from("id-9")));
    assert_eq!(e.status_code, 400);
    assert_eq!(e.err_type, "item-not-found");
    assert_eq!(e.msg, Some(String::from("id-9")));

    let e = HttpError::from_repo_err(&RepoErr::DBFailure(String::from("boom")));
    assert_eq!(e.status_code, 500);
    assert_eq!(e.err_type, "db-failure");
    assert_eq!(e.msg, Some(String::from("boom")));

    let e = HttpError::from_api_err(&ApiErr::ArgumentErr(String::from("Missing body")));
    assert_eq!(e.status_code, 400);
    assert_eq!(e.err_type, "argument-err");
    assert_eq!(e.msg, Some(String::from("Missing body")));

    let e = HttpError::from_api_err(&ApiErr::RepoErr(RepoErr::ItemNotFound(String::from("x"))));
    assert_eq!(e.status_code, 400);
    assert_eq!(e.err_type, "item-not-found");
}
