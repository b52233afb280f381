//! Durable credentials: what a stored document has to hold before it is used,
//! and how its bytes are read.

use vstd::prelude::*;

verus! {

/// The largest credential document that is read, in bytes.
pub const MAX_AUTH_JSON_BYTES: u64 = 1024 * 1024;

/// How a set of credentials authenticates.
#[derive(Clone, Copy, Debug, PartialEq, Eq, Structural)]
pub enum AuthMode {
    ApiKey,
    Chatgpt,
    ChatgptAuthTokens,
    Headers,
    AgentIdentity,
    PersonalAccessToken,
    BedrockApiKey,
    BedrockAccessKeys,
}

/// The tokens of a ChatGPT sign-in.
#[derive(Clone, Debug, PartialEq, Eq)]
pub struct TokenData {
    pub access_token: String,
    pub refresh_token: String,
}

/// A stored agent identity, reduced to whether it can authenticate.
#[derive(Clone, Copy, Debug, PartialEq, Eq, Structural)]
pub struct AgentIdentityStorage {
    pub auth_material: bool,
}

impl AgentIdentityStorage {
    /// Whether the identity holds something to authenticate with.
    pub fn has_auth_material(&self) -> (present: bool)
        ensures
            present == self.auth_material,
    {
        self.auth_material
    }
}

/// A credential document, as far as its acceptance depends on it.
#[derive(Clone, Debug, PartialEq, Eq)]
pub struct AuthDotJson {
    /// The mode that the document asks for, or that its contents imply.
    pub resolved_mode: AuthMode,
    pub openai_api_key: Option<String>,
    pub tokens: Option<TokenData>,
    pub agent_identity: Option<AgentIdentityStorage>,
    pub personal_access_token: Option<String>,
    /// The stored text of a Bedrock API key record.
    pub bedrock_api_key: Option<String>,
    /// The stored text of a Bedrock access key record.
    pub bedrock_access_keys: Option<String>,
}

/// Why a credential document is refused.
#[derive(Clone, Copy, Debug, PartialEq, Eq, Structural)]
pub enum AuthJsonError {
    /// It is larger than `MAX_AUTH_JSON_BYTES`.
    TooLarge,
    /// Its bytes do not parse as a credential document.
    Invalid,
    /// It parses, but holds no usable durable credentials.
    Unusable,
}

/// The characters with Unicode's `White_Space` property.
pub open spec fn white_space(c: char) -> bool {
    let code = c as u32;
    ||| 0x9 <= code <= 0xd
    ||| code == 0x20
    ||| code == 0x85
    ||| code == 0xa0
    ||| code == 0x1680
    ||| 0x2000 <= code <= 0x200a
    ||| code == 0x2028
    ||| code == 0x2029
    ||| code == 0x202f
    ||| code == 0x205f
    ||| code == 0x3000
}

/// A text of which nothing is left once the white space around it is removed.
pub open spec fn blank(text: Seq<char>) -> bool {
    forall|i: int| 0 <= i < text.len() ==> white_space(#[trigger] text[i])
}

/// A key that is there and not blank.
pub open spec fn filled(key: Option<String>) -> bool {
    key matches Some(text) && !blank(text@)
}

/// Whether a document holds usable durable credentials of the mode that it
/// resolves to. Credentials that live in memory or outside are never durable.
pub open spec fn usable(auth: AuthDotJson) -> bool {
    match auth.resolved_mode {
        AuthMode::ApiKey => filled(auth.openai_api_key),
        AuthMode::Chatgpt => auth.tokens matches Some(tokens) && tokens.access_token@.len() > 0
            && tokens.refresh_token@.len() > 0,
        AuthMode::AgentIdentity => auth.agent_identity matches Some(identity)
            && identity.auth_material,
        AuthMode::PersonalAccessToken => filled(auth.personal_access_token),
        AuthMode::BedrockApiKey => auth.bedrock_api_key is Some,
        AuthMode::BedrockAccessKeys => auth.bedrock_access_keys is Some,
        AuthMode::ChatgptAuthTokens => false,
        AuthMode::Headers => false,
    }
}

/// A document of more than `MAX_AUTH_JSON_BYTES` bytes.
pub open spec fn oversized(bytes: Seq<u8>) -> bool {
    bytes.len() > MAX_AUTH_JSON_BYTES
}

/// The verdict on a document of admissible size, given what it parsed to.
pub open spec fn judged(parsed: Option<AuthDotJson>) -> Result<AuthDotJson, AuthJsonError> {
    match parsed {
        None => Err(AuthJsonError::Invalid),
        Some(auth) => if usable(auth) {
            Ok(auth)
        } else {
            Err(AuthJsonError::Unusable)
        },
    }
}

/// The part of a document that is read: one byte more than it may have.
pub open spec fn read_part(document: Seq<u8>) -> Seq<u8> {
    if document.len() > MAX_AUTH_JSON_BYTES + 1 {
        document.take(MAX_AUTH_JSON_BYTES + 1)
    } else {
        document
    }
}

/// Whether a character is white space.
pub fn is_white_space(c: char) -> (result: bool)
    ensures
        result == white_space(c),
{
    let code: u32 = c as u32;
    (0x9 <= code && code <= 0xd) || code == 0x20 || code == 0x85 || code == 0xa0 || code == 0x1680
        || (0x2000 <= code && code <= 0x200a) || code == 0x2028 || code == 0x2029 || code == 0x202f
        || code == 0x205f || code == 0x3000
}

/// Whether a text consists of white space alone.
pub fn is_blank(text: &str) -> (result: bool)
    ensures
        result == blank(text@),
{
    for c in iter: text.chars()
        invariant
            iter.seq() == text@,
            forall|j: int| 0 <= j < iter.index() ==> white_space(#[trigger] text@[j]),
    {
        if !is_white_space(c) {
            assert(!white_space(text@[iter.index()]));
            return false;
        }
    }
    true
}

/// Whether a key is there and not blank.
pub fn is_filled(key: &Option<String>) -> (result: bool)
    ensures
        result == filled(*key),
{
    match key {
        Some(text) => !is_blank(text.as_str()),
        None => false,
    }
}

impl AuthDotJson {
    /// Whether the document holds usable durable credentials.
    pub fn is_usable(&self) -> (result: bool)
        ensures
            result == usable(*self),
    {
        match self.resolved_mode {
            AuthMode::ApiKey => is_filled(&self.openai_api_key),
            AuthMode::Chatgpt => match &self.tokens {
                Some(tokens) => !tokens.access_token.as_str().is_empty()
                    && !tokens.refresh_token.as_str().is_empty(),
                None => false,
            },
            AuthMode::AgentIdentity => match &self.agent_identity {
                Some(identity) => identity.has_auth_material(),
                None => false,
            },
            AuthMode::PersonalAccessToken => is_filled(&self.personal_access_token),
            AuthMode::BedrockApiKey => self.bedrock_api_key.is_some(),
            AuthMode::BedrockAccessKeys => self.bedrock_access_keys.is_some(),
            AuthMode::ChatgptAuthTokens | AuthMode::Headers => false,
        }
    }
}

/// How many bytes of a document to read at most. One more than the limit, so
/// that a document that is too large shows.
pub fn read_limit() -> (limit: u64)
    ensures
        limit == MAX_AUTH_JSON_BYTES + 1,
{
    MAX_AUTH_JSON_BYTES + 1
}

/// Whether a document is larger than is accepted.
pub fn is_oversized(bytes: &[u8]) -> (result: bool)
    ensures
        result == oversized(bytes@),
{
    bytes.len() as u64 > MAX_AUTH_JSON_BYTES
}

/// The verdict on what a document of admissible size parsed to.
pub fn judge(parsed: Option<AuthDotJson>) -> (verdict: Result<AuthDotJson, AuthJsonError>)
    ensures
        verdict == judged(parsed),
{
    match parsed {
        None => Err(AuthJsonError::Invalid),
        Some(auth) => if auth.is_usable() {
            Ok(auth)
        } else {
            Err(AuthJsonError::Unusable)
        },
    }
}

/// Reads a credential document. `bytes` are its first `read_limit()` bytes.
/// A document that is too large is refused unparsed. Any other is handed to
/// `parse`, whole, and judged by what comes back.
pub fn read_auth_json<P: FnOnce(&[u8]) -> Option<AuthDotJson>>(bytes: &[u8], parse: P) -> (verdict:
    Result<AuthDotJson, AuthJsonError>)
    requires
        !oversized(bytes@) ==> call_requires(parse, (bytes,)),
    ensures
        oversized(bytes@) ==> verdict == Err::<AuthDotJson, _>(AuthJsonError::TooLarge),
        !oversized(bytes@) ==> exists|parsed: Option<AuthDotJson>| #[trigger]
            call_ensures(parse, (bytes,), parsed) && verdict == judged(parsed),
{
    if is_oversized(bytes) {
        return Err(AuthJsonError::TooLarge);
    }
    let parsed: Option<AuthDotJson> = parse(bytes);
    judge(parsed)
}

/// Reading no more than `read_limit()` bytes loses nothing: the size verdict on
/// the part that is read is that on the whole document, and a document that is
/// not too large is read to its end.
pub proof fn reading_part_suffices(document: Seq<u8>)
    ensures
        oversized(read_part(document)) == oversized(document),
        !oversized(document) ==> read_part(document) == document,
{
}

/// Credentials that live in memory or outside are refused, whatever else the
/// document holds.
pub proof fn only_durable_modes_are_accepted(parsed: Option<AuthDotJson>)
    ensures
        judged(parsed) matches Ok(auth) ==> auth.resolved_mode != AuthMode::ChatgptAuthTokens
            && auth.resolved_mode != AuthMode::Headers,
{
}

/// White space is one of twenty-five characters.
pub proof fn white_space_is_listed(c: char)
    ensures
        white_space(c) <==> (c == '\u{9}' || c == '\u{a}' || c == '\u{b}' || c == '\u{c}' || c
            == '\u{d}' || c == ' ' || c == '\u{85}' || c == '\u{a0}' || c == '\u{1680}' || c
            == '\u{2000}' || c == '\u{2001}' || c == '\u{2002}' || c == '\u{2003}' || c
            == '\u{2004}' || c == '\u{2005}' || c == '\u{2006}' || c == '\u{2007}' || c
            == '\u{2008}' || c == '\u{2009}' || c == '\u{200a}' || c == '\u{2028}' || c
            == '\u{2029}' || c == '\u{202f}' || c == '\u{205f}' || c == '\u{3000}'),
{
}

/// Nothing is left of a joined text once it is trimmed exactly if nothing is left of
/// either part. The empty text is blank, and a single character is if it is white
/// space.
pub proof fn blank_texts_join(left: Seq<char>, right: Seq<char>, c: char)
    ensures
        blank(left + right) <==> blank(left) && blank(right),
        blank(Seq::<char>::empty()),
        blank(seq![c]) <==> white_space(c),
{
    let whole = left + right;
    assert(seq![c][0] == c);
    if blank(whole) {
        assert forall|i: int| 0 <= i < left.len() implies white_space(#[trigger] left[i]) by {
            assert(whole[i] == left[i]);
        }
        assert forall|i: int| 0 <= i < right.len() implies white_space(#[trigger] right[i]) by {
            assert(whole[left.len() + i] == right[i]);
        }
    }
}

/// A key is filled exactly if one of its characters is not white space.
pub proof fn one_character_fills_a_key(key: Option<String>)
    ensures
        filled(key) <==> (key matches Some(text) && exists|i: int|
            0 <= i < text@.len() && !white_space(#[trigger] text@[i])),
{
}

/// A document of up to 1,048,576 bytes is not too large, and any larger one is.
pub proof fn a_mebibyte_is_the_limit(document: Seq<u8>)
    ensures
        oversized(document) <==> document.len() >= 1_048_577,
        read_part(document).len() <= 1_048_577,
        document.len() <= 1_048_577 ==> read_part(document) == document,
        document.len() > 1_048_577 ==> read_part(document) == document.take(1_048_577),
{
}

/// A document that does not parse is invalid. One that parses is accepted as it is,
/// or refused as unusable; and it is accepted exactly if it is usable.
pub proof fn documents_are_accepted_as_they_are(auth: AuthDotJson)
    ensures
        judged(None) == Err::<AuthDotJson, AuthJsonError>(AuthJsonError::Invalid),
        judged(Some(auth)) == Ok::<AuthDotJson, AuthJsonError>(auth) || judged(Some(auth)) == Err::<
            AuthDotJson,
            AuthJsonError,
        >(AuthJsonError::Unusable),
        usable(auth) <==> judged(Some(auth)) is Ok,
{
}

/// An API key sign-in needs a key that is not blank, and nothing else.
pub proof fn api_key_sign_ins_need_a_key(auth: AuthDotJson)
    requires
        auth.resolved_mode == AuthMode::ApiKey,
    ensures
        judged(Some(auth)) is Ok <==> (auth.openai_api_key matches Some(key) && exists|i: int|
            0 <= i < key@.len() && !white_space(#[trigger] key@[i])),
{
}

/// A ChatGPT sign-in needs an access token and a refresh token that are not empty,
/// and nothing else.
pub proof fn chatgpt_sign_ins_need_both_tokens(auth: AuthDotJson)
    requires
        auth.resolved_mode == AuthMode::Chatgpt,
    ensures
        judged(Some(auth)) is Ok <==> (auth.tokens matches Some(tokens) && tokens.access_token@
            != Seq::<char>::empty() && tokens.refresh_token@ != Seq::<char>::empty()),
{
    if let Some(tokens) = auth.tokens {
        assert(tokens.access_token@.len() == 0 ==> tokens.access_token@ =~= Seq::<char>::empty());
        assert(tokens.refresh_token@.len() == 0 ==> tokens.refresh_token@ =~= Seq::<char>::empty());
    }
}

/// An agent identity needs something to authenticate with, and nothing else.
pub proof fn agent_identities_need_auth_material(auth: AuthDotJson)
    requires
        auth.resolved_mode == AuthMode::AgentIdentity,
    ensures
        judged(Some(auth)) is Ok <==> auth.agent_identity == Some(
            AgentIdentityStorage { auth_material: true },
        ),
{
}

/// A personal access token sign-in needs a token that is not blank, and nothing
/// else.
pub proof fn personal_sign_ins_need_a_token(auth: AuthDotJson)
    requires
        auth.resolved_mode == AuthMode::PersonalAccessToken,
    ensures
        judged(Some(auth)) is Ok <==> (auth.personal_access_token matches Some(token) && exists|
            i: int,
        |
            0 <= i < token@.len() && !white_space(#[trigger] token@[i])),
{
}

/// A Bedrock sign-in needs the record of its own kind, whatever that holds, and
/// nothing else.
pub proof fn bedrock_sign_ins_need_their_record(auth: AuthDotJson)
    ensures
        auth.resolved_mode == AuthMode::BedrockApiKey ==> (judged(Some(auth)) is Ok
            <==> auth.bedrock_api_key is Some),
        auth.resolved_mode == AuthMode::BedrockAccessKeys ==> (judged(Some(auth)) is Ok
            <==> auth.bedrock_access_keys is Some),
{
}

/// Credentials that live in memory or outside are unusable, with whatever fields.
pub proof fn outside_sign_ins_are_refused(auth: AuthDotJson)
    requires
        auth.resolved_mode == AuthMode::ChatgptAuthTokens || auth.resolved_mode
            == AuthMode::Headers,
    ensures
        judged(Some(auth)) == Err::<AuthDotJson, AuthJsonError>(AuthJsonError::Unusable),
{
}

/// Whether two documents hold the same in the field that `mode` goes by.
pub open spec fn agree_on(mode: AuthMode, a: AuthDotJson, b: AuthDotJson) -> bool {
    match mode {
        AuthMode::ApiKey => a.openai_api_key == b.openai_api_key,
        AuthMode::Chatgpt => a.tokens == b.tokens,
        AuthMode::AgentIdentity => a.agent_identity == b.agent_identity,
        AuthMode::PersonalAccessToken => a.personal_access_token == b.personal_access_token,
        AuthMode::BedrockApiKey => a.bedrock_api_key == b.bedrock_api_key,
        AuthMode::BedrockAccessKeys => a.bedrock_access_keys == b.bedrock_access_keys,
        AuthMode::ChatgptAuthTokens | AuthMode::Headers => true,
    }
}

/// The verdict goes by the field of the resolved mode alone: two documents of one mode
/// that hold the same there are both accepted or both refused.
pub proof fn other_fields_do_not_matter(a: AuthDotJson, b: AuthDotJson)
    requires
        a.resolved_mode == b.resolved_mode,
        agree_on(a.resolved_mode, a, b),
    ensures
        judged(Some(a)) is Ok <==> judged(Some(b)) is Ok,
        usable(a) == usable(b),
{
}

/// What `read_auth_json` returns, whatever the parser: a document of more than a
/// mebibyte is refused unparsed, one that does not parse is invalid, and one that does
/// is returned as it was parsed, or refused as unusable.
pub proof fn documents_are_read_as_they_parse<P: FnOnce(&[u8]) -> Option<AuthDotJson>>(
    bytes: &[u8],
    parse: P,
    parsed: Option<AuthDotJson>,
    verdict: Result<AuthDotJson, AuthJsonError>,
)
    requires
        call_ensures(read_auth_json::<P>, (bytes, parse), verdict),
        forall|found: Option<AuthDotJson>|
            #[trigger] call_ensures(parse, (bytes,), found) ==> found == parsed,
    ensures
        bytes@.len() > 1_048_576 <==> verdict == Err::<AuthDotJson, AuthJsonError>(
            AuthJsonError::TooLarge,
        ),
        bytes@.len() <= 1_048_576 ==> {
            &&& verdict == Err::<AuthDotJson, AuthJsonError>(AuthJsonError::Invalid)
                <==> parsed is None
            &&& verdict matches Ok(auth) ==> parsed == Some(auth)
            &&& parsed matches Some(auth) ==> verdict == judged(Some(auth))
        },
{
}

/// What the methods and functions on documents return, in terms of the verdict.
pub proof fn usable_documents_are_accepted(
    auth: AuthDotJson,
    usable_found: bool,
    verdict: Result<AuthDotJson, AuthJsonError>,
    limit: u64,
)
    requires
        call_ensures(AuthDotJson::is_usable, (&auth,), usable_found),
        call_ensures(judge, (Some(auth),), verdict),
        call_ensures(read_limit, (), limit),
    ensures
        usable_found <==> judged(Some(auth)) is Ok,
        verdict == judged(Some(auth)),
        limit == 1_048_577,
{
}

} // verus!
