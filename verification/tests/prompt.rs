use crim::error::Error;
use crim::prompt::{Prompt, PromptState};

#[test]
fn prompt_accepts_a_good_answer() {
    let mut prompt = Prompt::new(3);
    assert_eq!(prompt.current(), PromptState::AwaitingInput);
    prompt.enter();
    assert_eq!(prompt.current(), PromptState::Validating);
    prompt.judge(true);
    assert_eq!(prompt.current(), PromptState::Accepted);
    assert!(prompt.is_finished());
    assert_eq!(prompt.attempts(), 1);
    // Done is done.
    prompt.enter();
    prompt.judge(false);
    assert_eq!(prompt.current(), PromptState::Accepted);
    assert_eq!(prompt.attempts(), 1);
}

#[test]
fn prompt_gives_up_at_its_limit() {
    let mut prompt = Prompt::new(3);
    let mut states = Vec::new();
    for _ in 0..5 {
        prompt.enter();
        prompt.judge(false);
        states.push(prompt.current());
    }
    assert_eq!(
        states,
        vec![
            PromptState::Retry,
            PromptState::Retry,
            PromptState::Abandoned,
            PromptState::Abandoned,
            PromptState::Abandoned,
        ]
    );
    assert_eq!(prompt.attempts(), 3);
    assert!(prompt.is_finished());
}

#[test]
fn prompt_takes_a_late_good_answer() {
    let mut prompt = Prompt::new(2);
    prompt.enter();
    prompt.judge(false);
    assert!(!prompt.is_finished());
    prompt.enter();
    prompt.judge(true);
    assert_eq!(prompt.current(), PromptState::Accepted);
    assert_eq!(prompt.attempts(), 2);
}

#[test]
fn prompt_out_of_turn_changes_nothing() {
    let mut prompt = Prompt::new(2);
    prompt.judge(true);
    assert_eq!(prompt.current(), PromptState::AwaitingInput);
    prompt.enter();
    prompt.enter();
    assert_eq!(prompt.current(), PromptState::Validating);
    assert_eq!(prompt.attempts(), 1);
    let spent = Prompt::new(0);
    assert_eq!(spent.current(), PromptState::Abandoned);
    assert!(spent.is_finished());
}

#[test]
fn failures_are_worded_for_the_user() {
    assert_eq!(Error::InvalidCredentials.message(), "Invalid username or password.");
    assert_eq!(Error::DuplicateUsername.message(), "Username already exists. Please try again.");
    assert_eq!(Error::UnknownConversation.message(), "Conversation does not exist.");
    let all = [
        Error::DuplicateUsername,
        Error::UnknownParticipant,
        Error::InvalidCredentials,
        Error::KeyGenFailure,
        Error::KeyUnwrapFailed,
        Error::EncryptFailure,
        Error::DecryptFailure,
        Error::KeyVaultCorruption,
        Error::UnknownConversation,
        Error::NoActiveSession,
        Error::NotAParticipant,
        Error::StoreUnavailable,
        Error::StoreConflict,
    ];
    for (i, a) in all.iter().enumerate() {
        assert!(!a.message().is_empty());
        for b in &all[i + 1..] {
            assert_ne!(a.message(), b.message());
        }
    }
}
