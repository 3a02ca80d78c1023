use trashtrack::config::Config;
use trashtrack::inference::{
    bearer, chat_request, chat_request_with_limit, endpoint, first_completion, image_data_url,
    is_success, ContentPart, ServiceError, ServiceErrorKind, DEFAULT_MAX_TOKENS,
};

#[test]
fn data_url_embeds_the_image() {
    assert_eq!(image_data_url("QUJD"), "data:image/jpeg;base64,QUJD");
    assert_eq!(image_data_url(""), "data:image/jpeg;base64,");
}

#[test]
fn bearer_presents_the_key() {
    assert_eq!(bearer("sk-test"), "Bearer sk-test");
}

#[test]
fn endpoint_is_the_chat_completion_service() {
    assert_eq!(endpoint(), "https://api.openai.com/v1/chat/completions");
}

#[test]
fn success_statuses() {
    assert!(!is_success(199));
    assert!(is_success(200));
    assert!(is_success(204));
    assert!(is_success(299));
    assert!(!is_success(300));
    assert!(!is_success(404));
    assert!(!is_success(500));
    assert!(!is_success(0));
}

#[test]
fn chat_request_holds_text_then_image() {
    let request = chat_request(
        "https://example.com/image.jpg".to_string(),
        "What's in this image?".to_string(),
        "gpt-4o-mini".to_string(),
    );
    assert_eq!(request.model, "gpt-4o-mini");
    assert_eq!(request.max_tokens, 1000);
    assert_eq!(DEFAULT_MAX_TOKENS, 1000);
    assert_eq!(request.messages.len(), 1);
    let message = &request.messages[0];
    assert_eq!(message.role, "user");
    assert_eq!(message.content.len(), 2);
    match &message.content[0] {
        ContentPart::Text { text } => assert_eq!(text, "What's in this image?"),
        other => panic!("{:?}", other),
    }
    match &message.content[1] {
        ContentPart::ImageUrl { url, detail } => {
            assert_eq!(url, "https://example.com/image.jpg");
            assert_eq!(detail.as_deref(), Some("auto"));
        }
        other => panic!("{:?}", other),
    }
}

#[test]
fn chat_request_takes_another_ceiling() {
    let request = chat_request_with_limit("u".to_string(), "p".to_string(), "m".to_string(), 16);
    assert_eq!(request.max_tokens, 16);
    assert_eq!(request.model, "m");
}

#[test]
fn first_completion_is_the_answer() {
    let choices = vec!["87".to_string(), "12".to_string()];
    assert_eq!(first_completion(&choices).unwrap(), "87");
}

#[test]
fn no_completion_is_a_failure() {
    let error = first_completion(&Vec::new()).unwrap_err();
    assert_eq!(error.kind, ServiceErrorKind::NoCompletion);
    assert_eq!(error.message(), "No response");
}

#[test]
fn service_error_messages() {
    assert_eq!(ServiceError::transport("timed out".to_string()).message(), "timed out");
    assert_eq!(ServiceError::transport("timed out".to_string()).kind, ServiceErrorKind::Transport);
    assert_eq!(
        ServiceError::rejected("{\"error\":\"bad key\"}".to_string()).message(),
        "API error: {\"error\":\"bad key\"}"
    );
    assert_eq!(ServiceError::rejected(String::new()).kind, ServiceErrorKind::Rejected);
    assert_eq!(ServiceError::no_completion("empty body".to_string()).message(), "empty body");
}

fn config(address: Option<&str>, key: &str) -> Config {
    Config {
        webserver_address: address.map(|a| a.to_string()),
        webserver_port: Some(7504),
        openai_key: key.to_string(),
        supabase_url: "postgres://localhost/trash".to_string(),
        subabase_key: String::new(),
    }
}

#[test]
fn listen_address_falls_back() {
    assert_eq!(config(Some("127.0.0.1:8080"), "k").listen_address(), "127.0.0.1:8080");
    assert_eq!(config(None, "k").listen_address(), "0.0.0.0:7504");
}
