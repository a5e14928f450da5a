use popup_gpt::model::{Choice, CompletionResponse, Message, MessageDelta, Role, Usage};
use popup_gpt::sse::{FrameStep, SSEStream};

/// A streamed fragment: one choice at `index` carrying a delta.
fn fragment(index: u64, role: Option<Role>, content: Option<&str>) -> CompletionResponse {
    let mut resp = CompletionResponse::default();
    resp.choices.push(Choice {
        index,
        message: None,
        delta: Some(MessageDelta {
            role,
            content: content.map(|s| s.to_owned()),
        }),
        finish_reason: None,
    });
    resp
}

fn merge_checked(target: &mut CompletionResponse, incoming: CompletionResponse) {
    assert!(target.delta_mergeable(&incoming));
    target.merge_delta(incoming);
}

#[test]
fn same_index_text_appends_in_receipt_order() {
    let mut acc = CompletionResponse::default();
    merge_checked(&mut acc, fragment(0, Some(Role::Assistant), Some("")));
    merge_checked(&mut acc, fragment(0, None, Some("Hel")));
    merge_checked(&mut acc, fragment(0, None, Some("lo")));
    assert_eq!(acc.choices.len(), 1);
    let msg = acc.choices[0].message.as_ref().unwrap();
    assert_eq!(msg.content, "Hello");
    assert_eq!(msg.role, Role::Assistant);
}

#[test]
fn different_indices_merge_in_any_order() {
    let a = || fragment(1, Some(Role::Assistant), Some("one"));
    let b = || fragment(0, Some(Role::Assistant), Some("zero"));

    let mut first_a = CompletionResponse::default();
    merge_checked(&mut first_a, a());
    merge_checked(&mut first_a, b());

    let mut first_b = CompletionResponse::default();
    merge_checked(&mut first_b, b());
    merge_checked(&mut first_b, a());

    assert_eq!(first_a.choices.len(), first_b.choices.len());
    for (x, y) in first_a.choices.iter().zip(first_b.choices.iter()) {
        let mx = x.message.as_ref().unwrap();
        let my = y.message.as_ref().unwrap();
        assert_eq!(mx.role, my.role);
        assert_eq!(mx.content, my.content);
    }
}

#[test]
fn merge_gap_fills_sparse_index() {
    let mut acc = CompletionResponse::default();
    merge_checked(&mut acc, fragment(2, Some(Role::Assistant), Some("late")));
    assert_eq!(acc.choices.len(), 3);
    for gap in &acc.choices[0..2] {
        assert_eq!(gap.index, 0);
        assert!(gap.message.is_none());
        assert!(gap.delta.is_none());
        assert!(gap.finish_reason.is_none());
    }
    let msg = acc.choices[2].message.as_ref().unwrap();
    assert_eq!(msg.content, "late");
    assert_eq!(msg.role, Role::Assistant);
}

#[test]
fn role_bearing_delta_resets_accumulated_text() {
    let mut acc = CompletionResponse::default();
    merge_checked(&mut acc, fragment(0, Some(Role::Assistant), Some("old")));
    merge_checked(&mut acc, fragment(0, Some(Role::Assistant), Some("new")));
    assert_eq!(acc.choices[0].message.as_ref().unwrap().content, "new");
}

#[test]
fn text_before_role_is_not_mergeable() {
    let acc = CompletionResponse::default();
    let premature = fragment(0, None, Some("text"));
    assert!(!acc.delta_mergeable(&premature));
}

#[test]
fn text_after_earlier_role_fragment_is_mergeable() {
    let mut acc = CompletionResponse::default();
    merge_checked(&mut acc, fragment(0, Some(Role::Assistant), None));
    let follow_up = fragment(0, None, Some("ok"));
    assert!(acc.delta_mergeable(&follow_up));
}

#[test]
fn one_incoming_response_may_initialize_then_extend() {
    // A single incoming response whose fragments first set the role and
    // then append text at the same index is mergeable as a whole.
    let mut incoming = fragment(0, Some(Role::Assistant), None);
    incoming.choices.push(Choice {
        index: 0,
        message: None,
        delta: Some(MessageDelta {
            role: None,
            content: Some("joined".to_owned()),
        }),
        finish_reason: None,
    });
    let mut acc = CompletionResponse::default();
    merge_checked(&mut acc, incoming);
    assert_eq!(acc.choices[0].message.as_ref().unwrap().content, "joined");
}

#[test]
fn merge_keeps_header_fields_of_target() {
    let mut acc = CompletionResponse {
        id: "abc".to_owned(),
        object: "chat.completion".to_owned(),
        created: 77,
        choices: Vec::new(),
        usage: Some(Usage {
            prompt_tokens: 1,
            completion_tokens: 2,
            total_tokens: 3,
        }),
    };
    merge_checked(&mut acc, fragment(0, Some(Role::Assistant), Some("hi")));
    assert_eq!(acc.id, "abc");
    assert_eq!(acc.object, "chat.completion");
    assert_eq!(acc.created, 77);
    assert_eq!(acc.used_tokens(), Some(3));
}

#[test]
fn primary_response_reads_first_choice_message() {
    let mut resp = CompletionResponse::default();
    assert_eq!(resp.primary_response(), None);
    resp.choices.push(Choice {
        index: 0,
        message: Some(Message {
            role: Role::Assistant,
            content: "answer".to_owned(),
        }),
        delta: None,
        finish_reason: None,
    });
    assert_eq!(resp.primary_response(), Some("answer"));
}

#[test]
fn used_tokens_absent_without_usage() {
    let resp = CompletionResponse::default();
    assert_eq!(resp.used_tokens(), None);
}

#[test]
fn streamed_frames_accumulate_end_to_end() {
    // The end-to-end scenario: two delta frames and the sentinel.
    let mut parser = SSEStream::new();
    parser.feed(b"data: {\"choices\":[{\"index\":0,\"delta\":{\"role\":\"assistant\",\"content\":\"\"}}]}\n\n");
    parser.feed(b"data: {\"choices\":[{\"index\":0,\"delta\":{\"content\":\"Hi\"}}]}\n\n");
    parser.feed(b"data: [DONE]\n\n");
    let mut payloads: Vec<Vec<u8>> = Vec::new();
    loop {
        match parser.next_frame() {
            FrameStep::Frame(p) => payloads.push(p),
            FrameStep::NeedMore => panic!("stream is complete"),
            FrameStep::Done => break,
        }
    }
    assert_eq!(payloads.len(), 2);

    // The fragments the two payloads describe, folded into an accumulator.
    let mut acc = CompletionResponse::default();
    merge_checked(&mut acc, fragment(0, Some(Role::Assistant), Some("")));
    merge_checked(&mut acc, fragment(0, None, Some("Hi")));
    assert_eq!(acc.choices.len(), 1);
    assert_eq!(acc.primary_response(), Some("Hi"));
}
