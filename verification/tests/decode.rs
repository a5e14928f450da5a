use popup_gpt::json::{decode_response, role_of_str};
use popup_gpt::model::Role;

const FULL_BODY: &str = "{\"id\":\"chatcmpl-1\",\"object\":\"chat.completion\",\"created\":1677652288,\"choices\":[{\"index\":0,\"message\":{\"role\":\"assistant\",\"content\":\"Hello!\"},\"finish_reason\":\"stop\"}],\"usage\":{\"prompt_tokens\":9,\"completion_tokens\":12,\"total_tokens\":21}}";

#[test]
fn full_body_decodes_field_by_field() {
    let resp = decode_response(FULL_BODY).unwrap();
    assert_eq!(resp.id, "chatcmpl-1");
    assert_eq!(resp.object, "chat.completion");
    assert_eq!(resp.created, 1677652288);
    assert_eq!(resp.choices.len(), 1);
    let choice = &resp.choices[0];
    assert_eq!(choice.index, 0);
    let msg = choice.message.as_ref().unwrap();
    assert_eq!(msg.role, Role::Assistant);
    assert_eq!(msg.content, "Hello!");
    assert_eq!(choice.finish_reason.as_deref(), Some("stop"));
    assert!(choice.delta.is_none());
    assert_eq!(resp.used_tokens(), Some(21));
    assert_eq!(resp.primary_response(), Some("Hello!"));
}

#[test]
fn delta_frame_with_header_decodes() {
    let body = "{\"id\":\"c\",\"object\":\"chunk\",\"created\":5,\"choices\":[{\"index\":0,\"delta\":{\"role\":\"assistant\",\"content\":\"\"}}]}";
    let resp = decode_response(body).unwrap();
    let delta = resp.choices[0].delta.as_ref().unwrap();
    assert_eq!(delta.role, Some(Role::Assistant));
    assert_eq!(delta.content.as_deref(), Some(""));
}

#[test]
fn delta_without_role_decodes() {
    let body = "{\"id\":\"c\",\"object\":\"chunk\",\"created\":5,\"choices\":[{\"index\":0,\"delta\":{\"content\":\"Hi\"}}]}";
    let resp = decode_response(body).unwrap();
    let delta = resp.choices[0].delta.as_ref().unwrap();
    assert_eq!(delta.role, None);
    assert_eq!(delta.content.as_deref(), Some("Hi"));
}

#[test]
fn malformed_json_fails() {
    assert!(decode_response("{not json").is_none());
}

#[test]
fn missing_required_field_fails() {
    // No id.
    assert!(decode_response("{\"object\":\"o\",\"created\":0,\"choices\":[]}").is_none());
    // No created.
    assert!(decode_response("{\"id\":\"x\",\"object\":\"o\",\"choices\":[]}").is_none());
    // No choices.
    assert!(decode_response("{\"id\":\"x\",\"object\":\"o\",\"created\":0}").is_none());
}

#[test]
fn ill_typed_field_fails() {
    assert!(decode_response("{\"id\":7,\"object\":\"o\",\"created\":0,\"choices\":[]}").is_none());
    assert!(
        decode_response("{\"id\":\"x\",\"object\":\"o\",\"created\":\"zero\",\"choices\":[]}")
            .is_none()
    );
    assert!(
        decode_response("{\"id\":\"x\",\"object\":\"o\",\"created\":0,\"choices\":7}").is_none()
    );
}

#[test]
fn unknown_role_fails() {
    let body = "{\"id\":\"x\",\"object\":\"o\",\"created\":0,\"choices\":[{\"index\":0,\"message\":{\"role\":\"oracle\",\"content\":\"c\"}}]}";
    assert!(decode_response(body).is_none());
}

#[test]
fn role_strings_map_exactly() {
    assert_eq!(role_of_str(&"system".to_owned()), Some(Role::System));
    assert_eq!(role_of_str(&"assistant".to_owned()), Some(Role::Assistant));
    assert_eq!(role_of_str(&"user".to_owned()), Some(Role::User));
    assert_eq!(role_of_str(&"User".to_owned()), None);
    assert_eq!(role_of_str(&"".to_owned()), None);
}

#[test]
fn token_counts_must_fit() {
    let body = "{\"id\":\"x\",\"object\":\"o\",\"created\":0,\"choices\":[],\"usage\":{\"prompt_tokens\":1,\"completion_tokens\":1,\"total_tokens\":5000000000}}";
    assert!(decode_response(body).is_none());
}

#[test]
fn null_optional_fields_mean_absent() {
    let body = "{\"id\":\"x\",\"object\":\"o\",\"created\":0,\"choices\":[{\"index\":1,\"message\":null,\"delta\":null,\"finish_reason\":null}],\"usage\":null}";
    let resp = decode_response(body).unwrap();
    assert_eq!(resp.choices[0].index, 1);
    assert!(resp.choices[0].message.is_none());
    assert!(resp.choices[0].delta.is_none());
    assert!(resp.choices[0].finish_reason.is_none());
    assert!(resp.usage.is_none());
}

#[test]
fn sparse_indices_are_preserved_by_decode() {
    let body = "{\"id\":\"x\",\"object\":\"o\",\"created\":0,\"choices\":[{\"index\":2,\"delta\":{\"role\":\"assistant\",\"content\":\"c\"}}]}";
    let resp = decode_response(body).unwrap();
    assert_eq!(resp.choices.len(), 1);
    assert_eq!(resp.choices[0].index, 2);
}
