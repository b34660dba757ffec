use wedding_funcs::func::{InviteeRepo, RelationRepo, RepoErr};
use wedding_funcs::mem::MemRepo;
use wedding_funcs::models::{InviteeDTO, UpdateInviteeParams};

fn invitee(id: &str) -> InviteeDTO {
    InviteeDTO {
        id: String::from(id),
        fname: String::from("Test1"),
        lname: String::from("1"),
        rsvp: None,
        dietary_requirements: String::from("something"),
    }
}

#[test]
fn should_get_invitee_by_id() {
    let mut repo = MemRepo::new();
    repo.add_invitee(invitee("id-1"));

    let invite = repo.get_invitee_by_id("id-1").expect("Should retrieve sent");
    assert_eq!(invite.id, "id-1");
    assert_eq!(invite.fname, String::from("Test1"));
    assert_eq!(invite.lname, String::from("1"));
    assert_eq!(invite.rsvp, None);
    assert_eq!(invite.dietary_requirements, String::from("something"));
}

#[test]
fn missing_invitee_is_not_found() {
    let repo = MemRepo::new();
    let r = repo.get_invitee_by_id("id-1");
    assert_eq!(r, Err(RepoErr::ItemNotFound(String::from("id-1"))));
}

#[test]
fn adding_again_replaces_the_record() {
    let mut repo = MemRepo::new();
    repo.add_invitee(invitee("id-1"));
    let mut changed = invitee("id-1");
    changed.fname = String::from("Test2");
    repo.add_invitee(changed);

    let invite = repo.get_invitee_by_id("id-1").expect("Should retrieve sent");
    assert_eq!(invite.fname, "Test2");
}

#[test]
fn should_get_invitee_by_ids() {
    let mut repo = MemRepo::new();
    repo.add_invitee(invitee("id-1"));
    repo.add_invitee(invitee("id-2"));
    repo.add_invitee(invitee("id-3"));

    let ids: Vec<&str> = vec!["id-1", "id-2", "id-3"];
    let invites = repo.get_invitee_by_ids(&ids).expect("Should retrieve invites");
    assert_eq!(invites.len(), 3);
}

#[test]
fn batch_passes_over_missing_ids() {
    let mut repo = MemRepo::new();
    repo.add_invitee(invitee("id-1"));

    let ids: Vec<&str> = vec!["id-1", "absent"];
    let invites = repo.get_invitee_by_ids(&ids).expect("Should retrieve invites");
    assert_eq!(invites.len(), 1);
    assert_eq!(invites[0].id, "id-1");
}

#[test]
fn should_update_invitee() {
    let mut repo = MemRepo::new();
    repo.add_invitee(invitee("id-1"));

    let params = UpdateInviteeParams {
        id: String::from("id-1"),
        rsvp: Some(true),
        dietary_requirements: String::from("Something new"),
    };
    let invite = repo.update_invitee(&params).expect("Should update invite");
    assert_eq!(invite.id, "id-1");
    assert_eq!(invite.rsvp, Some(true));
    assert_eq!(invite.dietary_requirements, String::from("Something new"));
    assert_eq!(invite.fname, "Test1");

    let stored = repo.get_invitee_by_id("id-1").expect("Should retrieve sent");
    assert_eq!(stored, invite);
}

#[test]
fn updating_missing_invitee_is_not_found() {
    let mut repo = MemRepo::new();
    let params = UpdateInviteeParams {
        id: String::from("id-1"),
        rsvp: None,
        dietary_requirements: String::from(""),
    };
    let r = repo.update_invitee(&params);
    assert_eq!(r, Err(RepoErr::ItemNotFound(String::from("id-1"))));
}

#[test]
fn dependents_come_back_in_insertion_order() {
    let mut repo = MemRepo::new();
    repo.add_relation(String::from("p"), String::from("c1"));
    repo.add_relation(String::from("q"), String::from("other"));
    repo.add_relation(String::from("p"), String::from("c2"));

    let deps = repo.get_dependents("p").expect("relations should be listed");
    assert_eq!(deps, vec![String::from("c1"), String::from("c2")]);
    let none = repo.get_dependents("r").expect("relations should be listed");
    assert!(none.is_empty());
}
