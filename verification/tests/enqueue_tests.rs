use magic_nix_cache::enqueue::{enqueue_outcome, plan_enqueue, SessionVerdict};
use magic_nix_cache::error::Error;

#[test]
fn empty_batch_is_submitted_nowhere() {
    assert_eq!(plan_enqueue(Vec::new()), None);
}

#[test]
fn nonempty_batch_is_submitted_whole_and_in_order() {
    let paths = vec![
        "/nix/store/aaaaaaaaaaaaaaaaaaaaaaaaaaaaaaaa-one".to_string(),
        "/nix/store/bbbbbbbbbbbbbbbbbbbbbbbbbbbbbbbb-two".to_string(),
        "/nix/store/cccccccccccccccccccccccccccccccc-three".to_string(),
    ];
    assert_eq!(plan_enqueue(paths.clone()), Some(paths));
}

#[test]
fn acceptance_is_success() {
    assert_eq!(enqueue_outcome(SessionVerdict::Accepted), Ok(()));
}

#[test]
fn rejection_is_propagated_verbatim() {
    let r = enqueue_outcome(SessionVerdict::Rejected {
        message: "session has shut down".to_string(),
    });
    assert_eq!(
        r.unwrap_err(),
        Error::Session {
            message: "session has shut down".to_string()
        }
    );
}
