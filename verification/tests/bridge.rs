use oogit::bridge::{
    can_be_object_id, checkout_fault, clone_fault, plan_commit, plan_push, push_fault, resolve,
    choose_credential, revision_lookups, select_remote, Accepted, Answer, CommitPlan, Credential, EngineClass,
    EngineCode, EngineError, Lookup, PushPlan, Tip,
};
use oogit::error::OogitError;
use oogit::lifecycle::Fault;

fn error(code: EngineCode, class: EngineClass) -> EngineError {
    EngineError { code, class }
}

fn reference(name: &str) -> Lookup {
    Lookup::Reference { name: name.to_string() }
}

#[test]
fn missing_branch_is_a_reference_not_found() {
    assert_eq!(clone_fault(error(EngineCode::NotFound, EngineClass::Reference)), Fault::NotFound);
    assert_eq!(clone_fault(error(EngineCode::NotFound, EngineClass::Other)), Fault::Other);
    assert_eq!(clone_fault(error(EngineCode::NotFound, EngineClass::Os)), Fault::Other);
    assert_eq!(clone_fault(error(EngineCode::Auth, EngineClass::Reference)), Fault::Other);
    assert_eq!(clone_fault(error(EngineCode::Other, EngineClass::Other)), Fault::Other);
}

#[test]
fn push_failures_are_rejections_unless_local() {
    assert_eq!(push_fault(error(EngineCode::NotFastForward, EngineClass::Reference)), Fault::Rejected);
    assert_eq!(push_fault(error(EngineCode::Auth, EngineClass::Other)), Fault::Rejected);
    assert_eq!(push_fault(error(EngineCode::Certificate, EngineClass::Other)), Fault::Rejected);
    assert_eq!(push_fault(error(EngineCode::Other, EngineClass::Other)), Fault::Rejected);
    assert_eq!(push_fault(error(EngineCode::Other, EngineClass::Os)), Fault::Io);
    assert_eq!(push_fault(error(EngineCode::Other, EngineClass::Filesystem)), Fault::Io);
}

#[test]
fn checkout_failures() {
    assert_eq!(checkout_fault(error(EngineCode::NotFound, EngineClass::Reference)), Fault::NotFound);
    assert_eq!(checkout_fault(error(EngineCode::NotFound, EngineClass::Os)), Fault::NotFound);
    assert_eq!(checkout_fault(error(EngineCode::Other, EngineClass::Os)), Fault::Io);
    assert_eq!(checkout_fault(error(EngineCode::Auth, EngineClass::Filesystem)), Fault::Io);
    assert_eq!(checkout_fault(error(EngineCode::Other, EngineClass::Other)), Fault::Other);
}

#[test]
fn unchanged_tree_plans_no_commit() {
    let tip = Tip { commit: vec![1, 2, 3], tree: vec![9, 9] };
    assert_eq!(plan_commit(&vec![9, 9], Some(tip.clone()), false, "m"), None);
    assert_eq!(plan_commit(&vec![9, 9], Some(tip), true, "m"), None);
    assert_eq!(plan_commit(&vec![4], None, true, "m"), None);
}

#[test]
fn changed_tree_is_committed_on_the_tip() {
    let tip = Tip { commit: vec![1, 2, 3], tree: vec![9, 9] };
    assert_eq!(
        plan_commit(&vec![9, 8], Some(tip.clone()), false, "seed"),
        Some(CommitPlan { message: "seed".to_string(), parent: Some(vec![1, 2, 3]) })
    );
    assert_eq!(
        plan_commit(&vec![9], Some(tip.clone()), false, "seed"),
        Some(CommitPlan { message: "seed".to_string(), parent: Some(vec![1, 2, 3]) })
    );
    assert_eq!(
        plan_commit(&vec![], Some(tip), true, ""),
        Some(CommitPlan { message: String::new(), parent: Some(vec![1, 2, 3]) })
    );
}

#[test]
fn first_commit_has_no_parent() {
    assert_eq!(
        plan_commit(&vec![7], None, false, "oogit initial commit"),
        Some(CommitPlan { message: "oogit initial commit".to_string(), parent: None })
    );
}

#[test]
fn push_goes_to_the_first_remote() {
    let remotes = vec!["origin".to_string(), "backup".to_string()];
    assert_eq!(
        plan_push(&remotes, Some("main")),
        Ok(PushPlan {
            remote: "origin".to_string(),
            refspec: "refs/heads/main:refs/heads/main".to_string(),
        })
    );
}

#[test]
fn push_without_remote_fails() {
    assert_eq!(plan_push(&Vec::new(), Some("main")), Err(OogitError::NoRemoteConfigured));
    assert_eq!(plan_push(&Vec::new(), None), Err(OogitError::NoRemoteConfigured));
}

#[test]
fn push_without_branch_name_fails() {
    assert_eq!(plan_push(&vec!["origin".to_string()], None), Err(OogitError::PushRejected));
}

#[test]
fn object_ids_are_four_to_forty_hex_digits() {
    assert!(can_be_object_id("abcd"));
    assert!(can_be_object_id("0123456789abcdefABCDEF0123456789abcdef01"));
    assert!(can_be_object_id("DEADbeef"));
    assert!(!can_be_object_id("abc"));
    assert!(!can_be_object_id(""));
    assert!(!can_be_object_id("0123456789abcdefABCDEF0123456789abcdef012"));
    assert!(!can_be_object_id("v1.0"));
    assert!(!can_be_object_id("abcg"));
    assert!(!can_be_object_id("main"));
    assert!(!can_be_object_id("12/4"));
    assert!(!can_be_object_id("12:4"));
    assert!(!can_be_object_id("12@4"));
    assert!(!can_be_object_id("12`4"));
    assert!(!can_be_object_id("12G4"));
}

#[test]
fn tag_is_looked_up_before_branches() {
    assert_eq!(
        revision_lookups(Some("v1.0"), Some("origin"), Some("main")),
        vec![
            reference("refs/tags/v1.0"),
            reference("refs/heads/v1.0"),
            reference("refs/remotes/origin/v1.0"),
        ]
    );
}

#[test]
fn object_id_is_looked_up_first() {
    assert_eq!(
        revision_lookups(Some("deadbeef"), Some("origin"), None),
        vec![
            Lookup::Object { id: "deadbeef".to_string() },
            reference("refs/tags/deadbeef"),
            reference("refs/heads/deadbeef"),
            reference("refs/remotes/origin/deadbeef"),
        ]
    );
}

#[test]
fn no_revision_means_tip_of_remote_branch() {
    assert_eq!(
        revision_lookups(None, Some("origin"), Some("main")),
        vec![reference("refs/remotes/origin/main")]
    );
    assert_eq!(
        revision_lookups(None, Some("upstream"), None),
        vec![reference("refs/remotes/upstream/HEAD")]
    );
}

#[test]
fn first_lookup_that_found_something_decides() {
    assert_eq!(resolve(&vec![false, true, true]), Ok(1));
    assert_eq!(resolve(&vec![true, true]), Ok(0));
    assert_eq!(resolve(&vec![false, false, false, true]), Ok(3));
}

#[test]
fn revision_found_nowhere_is_not_found() {
    assert_eq!(resolve(&vec![false, false, false]), Err(OogitError::RevisionNotFound));
    assert_eq!(resolve(&Vec::new()), Err(OogitError::RevisionNotFound));
}

fn accepted(default: bool, ssh_key: bool, user_pass: bool, username: bool) -> Accepted {
    Accepted { default, ssh_key, user_pass, username }
}

#[test]
fn anonymous_credential_answers_with_the_default() {
    for a in [accepted(true, false, false, false), accepted(false, true, true, true)] {
        assert_eq!(Credential::Anonymous.answer(a), Answer::Default);
    }
}

#[test]
fn ssh_agent_credential_answers_key_requests() {
    let c = Credential::SshAgent { username: "git".to_string() };
    assert_eq!(
        c.answer(accepted(false, true, false, true)),
        Answer::SshAgent { username: "git".to_string() }
    );
    assert_eq!(
        c.answer(accepted(false, false, false, true)),
        Answer::Username { username: "git".to_string() }
    );
    assert_eq!(c.answer(accepted(true, false, true, false)), Answer::Refuse);
}

#[test]
fn token_credential_goes_as_user_name() {
    let c = Credential::Token { token: "t0k3n".to_string() };
    assert_eq!(
        c.answer(accepted(false, false, true, false)),
        Answer::UserPass { username: "t0k3n".to_string(), password: String::new() }
    );
    assert_eq!(c.answer(accepted(true, true, false, true)), Answer::Refuse);
}

#[test]
fn password_credential_answers_plain_text_requests() {
    let c = Credential::UserPass { username: "u".to_string(), password: "p".to_string() };
    assert_eq!(
        c.answer(accepted(false, false, true, false)),
        Answer::UserPass { username: "u".to_string(), password: "p".to_string() }
    );
    assert_eq!(c.answer(accepted(true, true, false, true)), Answer::Refuse);
}

#[test]
fn without_remote_only_local_names_are_looked_up() {
    assert_eq!(
        revision_lookups(Some("v1.0"), None, Some("main")),
        vec![reference("refs/tags/v1.0"), reference("refs/heads/v1.0")]
    );
    assert_eq!(revision_lookups(None, None, Some("main")), Vec::new());
}

#[test]
fn first_remote_is_selected() {
    assert_eq!(
        select_remote(&vec!["upstream".to_string(), "origin".to_string()]),
        Ok("upstream".to_string())
    );
    assert_eq!(select_remote(&Vec::new()), Err(OogitError::NoRemoteConfigured));
}

fn some(text: &str) -> Option<String> {
    Some(text.to_string())
}

#[test]
fn token_is_chosen_before_everything_else() {
    assert_eq!(
        choose_credential(some("t"), some("u"), some("p"), some("git")),
        Credential::Token { token: "t".to_string() }
    );
}

#[test]
fn password_is_chosen_before_the_ssh_agent() {
    assert_eq!(
        choose_credential(None, some("u"), some("p"), some("git")),
        Credential::UserPass { username: "u".to_string(), password: "p".to_string() }
    );
    assert_eq!(
        choose_credential(some(""), some("u"), some("p"), None),
        Credential::UserPass { username: "u".to_string(), password: "p".to_string() }
    );
}

#[test]
fn user_name_without_password_is_not_a_pair() {
    assert_eq!(
        choose_credential(None, some("u"), None, some("git")),
        Credential::SshAgent { username: "git".to_string() }
    );
    assert_eq!(
        choose_credential(None, some("u"), some(""), some("git")),
        Credential::SshAgent { username: "git".to_string() }
    );
    assert_eq!(choose_credential(None, None, some("p"), None), Credential::Anonymous);
}

#[test]
fn nothing_given_is_anonymous() {
    assert_eq!(choose_credential(None, None, None, None), Credential::Anonymous);
    assert_eq!(choose_credential(some(""), some(""), some(""), some("")), Credential::Anonymous);
}
