use shared_auth::credentials::{
    is_blank, is_oversized, is_white_space, judge, read_auth_json, read_limit, AgentIdentityStorage,
    AuthDotJson, AuthJsonError, AuthMode, TokenData, MAX_AUTH_JSON_BYTES,
};

fn empty(mode: AuthMode) -> AuthDotJson {
    AuthDotJson {
        resolved_mode: mode,
        openai_api_key: None,
        tokens: None,
        agent_identity: None,
        personal_access_token: None,
        bedrock_api_key: None,
        bedrock_access_keys: None,
    }
}

fn tokens(access: &str, refresh: &str) -> Option<TokenData> {
    Some(TokenData { access_token: access.to_string(), refresh_token: refresh.to_string() })
}

fn full(mode: AuthMode) -> AuthDotJson {
    AuthDotJson {
        resolved_mode: mode,
        openai_api_key: Some("key".to_string()),
        tokens: tokens("access", "refresh"),
        agent_identity: Some(AgentIdentityStorage { auth_material: true }),
        personal_access_token: Some("token".to_string()),
        bedrock_api_key: Some("{}".to_string()),
        bedrock_access_keys: Some("{}".to_string()),
    }
}

#[test]
fn white_space_is_that_of_the_standard_library() {
    for code in 0..=0x10ffffu32 {
        if let Some(c) = char::from_u32(code) {
            assert_eq!(is_white_space(c), c.is_whitespace(), "{code:x}");
        }
    }
}

#[test]
fn blank_texts_are_those_that_trim_to_nothing() {
    for text in ["", " ", "\t\n", "\u{3000}\u{a0}", "x", " x ", "\u{200b}", "\u{1680}y"] {
        assert_eq!(is_blank(text), text.trim().is_empty(), "{text:?}");
    }
}

#[test]
fn every_durable_mode_needs_its_own_credentials() {
    for mode in [
        AuthMode::ApiKey,
        AuthMode::Chatgpt,
        AuthMode::AgentIdentity,
        AuthMode::PersonalAccessToken,
        AuthMode::BedrockApiKey,
        AuthMode::BedrockAccessKeys,
    ] {
        assert_eq!(judge(Some(full(mode))), Ok(full(mode)));
        assert_eq!(judge(Some(empty(mode))), Err(AuthJsonError::Unusable));
    }
}

#[test]
fn only_the_resolved_mode_counts() {
    let mut auth = full(AuthMode::ApiKey);
    auth.openai_api_key = None;
    assert_eq!(judge(Some(auth)), Err(AuthJsonError::Unusable));
    let mut auth = empty(AuthMode::BedrockAccessKeys);
    auth.bedrock_api_key = Some("{}".to_string());
    assert_eq!(judge(Some(auth)), Err(AuthJsonError::Unusable));
}

#[test]
fn memory_and_external_credentials_are_refused() {
    for mode in [AuthMode::ChatgptAuthTokens, AuthMode::Headers] {
        assert_eq!(judge(Some(full(mode))), Err(AuthJsonError::Unusable));
    }
}

#[test]
fn blank_keys_and_empty_tokens_are_refused() {
    let mut auth = full(AuthMode::ApiKey);
    auth.openai_api_key = Some(" \n".to_string());
    assert!(!auth.is_usable());
    auth.resolved_mode = AuthMode::PersonalAccessToken;
    assert!(auth.is_usable());
    auth.personal_access_token = Some("\t".to_string());
    assert!(!auth.is_usable());
    auth.resolved_mode = AuthMode::Chatgpt;
    assert!(auth.is_usable());
    auth.tokens = tokens("", "refresh");
    assert!(!auth.is_usable());
    auth.tokens = tokens("access", "");
    assert!(!auth.is_usable());
    auth.tokens = tokens(" ", " ");
    assert!(auth.is_usable());
    auth.resolved_mode = AuthMode::AgentIdentity;
    assert!(auth.is_usable());
    auth.agent_identity = Some(AgentIdentityStorage { auth_material: false });
    assert!(!auth.is_usable());
}

#[test]
fn documents_up_to_the_limit_are_parsed_whole() {
    let bytes = vec![b' '; MAX_AUTH_JSON_BYTES as usize];
    let mut seen = 0;
    let verdict = read_auth_json(&bytes, |document: &[u8]| {
        seen = document.len();
        Some(full(AuthMode::ApiKey))
    });
    assert_eq!(verdict, Ok(full(AuthMode::ApiKey)));
    assert_eq!(seen, 1_048_576);
}

#[test]
fn larger_documents_are_refused_unparsed() {
    let bytes = vec![b' '; MAX_AUTH_JSON_BYTES as usize + 1];
    assert!(is_oversized(&bytes));
    let verdict = read_auth_json(&bytes, |_: &[u8]| -> Option<AuthDotJson> {
        panic!("parsed a document that is too large")
    });
    assert_eq!(verdict, Err(AuthJsonError::TooLarge));
    assert_eq!(read_limit(), 1_048_577);
}

#[test]
fn unparsed_documents_are_invalid() {
    assert_eq!(read_auth_json(b"{invalid}", |_: &[u8]| None), Err(AuthJsonError::Invalid));
    assert_eq!(AuthJsonError::TooLarge.message(), "auth JSON exceeds 1 MiB");
    assert_eq!(AuthJsonError::Invalid.message(), "invalid auth JSON");
    assert_eq!(
        AuthJsonError::Unusable.message(),
        "auth JSON is missing usable durable credentials"
    );
}

#[test]
fn reading_one_byte_too_many_shows_the_size() {
    for length in [0u64, 1, MAX_AUTH_JSON_BYTES, MAX_AUTH_JSON_BYTES + 1, MAX_AUTH_JSON_BYTES + 9] {
        let document = vec![b'x'; length as usize];
        let read = &document[..(length.min(read_limit()) as usize)];
        assert_eq!(is_oversized(read), is_oversized(&document));
        assert!(is_oversized(read) || read.len() == document.len());
    }
}
