use popup_gpt::coordinator::{SessionState, UiMsg};
use popup_gpt::model::{Choice, CompletionResponse, Message, MessageDelta, Role};

fn partial(index: u64, content: &str) -> UiMsg {
    let mut resp = CompletionResponse::default();
    resp.choices.push(Choice {
        index,
        message: None,
        delta: Some(MessageDelta {
            role: None,
            content: Some(content.to_owned()),
        }),
        finish_reason: None,
    });
    UiMsg::Partial(resp)
}

fn final_answer(content: &str) -> UiMsg {
    let mut resp = CompletionResponse::default();
    resp.choices.push(Choice {
        index: 0,
        message: Some(Message {
            role: Role::Assistant,
            content: content.to_owned(),
        }),
        delta: None,
        finish_reason: None,
    });
    UiMsg::Final(resp)
}

#[test]
fn partial_fragments_append_while_in_flight() {
    let mut session = SessionState::new();
    session.start_call();
    session.apply(&partial(0, "Hel"));
    session.apply(&partial(0, "lo"));
    assert_eq!(session.response, "Hello");
    assert!(session.loading);
}

#[test]
fn flush_ends_the_call_and_keeps_text() {
    let mut session = SessionState::new();
    session.start_call();
    session.apply(&partial(0, "done soon"));
    session.apply(&UiMsg::Flush);
    assert_eq!(session.response, "done soon");
    assert!(!session.loading);
}

#[test]
fn late_fragments_are_dropped() {
    let mut session = SessionState::new();
    session.start_call();
    session.apply(&partial(0, "kept"));
    session.apply(&UiMsg::Flush);
    session.apply(&partial(0, " dropped"));
    assert_eq!(session.response, "kept");
    assert!(!session.loading);
}

#[test]
fn final_answer_replaces_text_and_ends_call() {
    let mut session = SessionState::new();
    session.start_call();
    session.apply(&partial(0, "partial text"));
    session.apply(&final_answer("the whole answer"));
    assert_eq!(session.response, "the whole answer");
    assert!(!session.loading);
}

#[test]
fn start_call_clears_previous_text() {
    let mut session = SessionState::new();
    session.start_call();
    session.apply(&partial(0, "first call"));
    session.apply(&UiMsg::Flush);
    session.start_call();
    assert_eq!(session.response, "");
    assert!(session.loading);
}

#[test]
fn partial_without_delta_text_changes_nothing() {
    let mut session = SessionState::new();
    session.start_call();
    let mut resp = CompletionResponse::default();
    resp.choices.push(Choice {
        index: 0,
        message: None,
        delta: Some(MessageDelta {
            role: Some(Role::Assistant),
            content: None,
        }),
        finish_reason: None,
    });
    session.apply(&UiMsg::Partial(resp));
    assert_eq!(session.response, "");
    assert!(session.loading);
}
