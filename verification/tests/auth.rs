use axum::http::{HeaderMap, HeaderValue};
use summ_server::auth::{
    base64_decode, credential, Access, ApiKey, AuthError, AuthPolicy,
};
use summ_server::error::ErrorCode;
use summ_server::wire::Method;

fn encode(raw: &[u8]) -> String {
    // The encoder exists only here, to build the input the decoder is tested on.
    // Nothing in the server encodes base64.
    const ALPHABET: &[u8] = b"ABCDEFGHIJKLMNOPQRSTUVWXYZabcdefghijklmnopqrstuvwxyz0123456789+/";
    let mut out = String::new();
    for chunk in raw.chunks(3) {
        let mut acc = 0u32;
        for (i, &byte) in chunk.iter().enumerate() {
            acc |= u32::from(byte) << (16 - 8 * i);
        }
        for i in 0..chunk.len() + 1 {
            out.push(ALPHABET[((acc >> (18 - 6 * i)) & 0x3f) as usize] as char);
        }
        for _ in 0..3 - chunk.len() {
            out.push('=');
        }
    }
    out
}

fn basic(user: &str, password: &str) -> String {
    let raw = format!("{user}:{password}").into_bytes();
    format!("Basic {}", encode(&raw))
}

fn headers(authorization: &str) -> HeaderMap {
    let mut map = HeaderMap::new();
    if !authorization.is_empty() {
        match HeaderValue::from_str(authorization) {
            Ok(value) => {
                map.insert("authorization", value);
            }
            Err(e) => panic!("test header is not a valid header value: {e}"),
        }
    }
    map
}

/// `--auth-mode private`.
fn private() -> AuthPolicy {
    AuthPolicy::Private {
        read: ApiKey::new("read-key"),
        write: ApiKey::new("write-key"),
    }
}

/// `--auth-mode public-pull`.
fn public_pull() -> AuthPolicy {
    AuthPolicy::PublicPull {
        write: ApiKey::new("write-key"),
    }
}

#[test]
fn base64_round_trips_every_tail_length() {
    for password in ["", "a", "ab", "abc", "abcd", "abcde", "hunter2", "a:b:c"] {
        let value = basic("user", password);
        let encoded = value.trim_start_matches("Basic ");
        let decoded = base64_decode(encoded).expect("decodes");
        assert_eq!(decoded, format!("user:{password}").as_bytes());
    }
}

#[test]
fn base64_decodes_without_padding() {
    // `dXNlcjprZXk=` is `user:key`; the same value with its padding stripped must
    // decode identically.
    assert_eq!(
        base64_decode("dXNlcjprZXk=").as_deref(),
        Some(&b"user:key"[..])
    );
    assert_eq!(
        base64_decode("dXNlcjprZXk").as_deref(),
        Some(&b"user:key"[..])
    );
}

#[test]
fn base64_rejects_junk() {
    assert_eq!(base64_decode("not base64!"), None);
    assert_eq!(
        base64_decode("a"),
        None,
        "one leftover character is no encoding's tail"
    );
    assert_eq!(base64_decode("dXNlcjpr*Xk="), None);
}

#[test]
fn base64_carries_every_byte() {
    let all: Vec<u8> = (0..=255u8).collect();
    assert_eq!(base64_decode(&encode(&all)), Some(all));
    assert_eq!(base64_decode(""), Some(Vec::new()));
}

#[test]
fn the_basic_password_is_the_key_and_the_username_is_ignored() {
    assert_eq!(credential(&basic("anyone", "k")).as_deref(), Some("k"));
    assert_eq!(credential(&basic("", "k")).as_deref(), Some("k"));
    assert_eq!(
        credential(&basic("other", "k")).as_deref(),
        Some("k"),
        "no registry should require a particular username for a key"
    );
}

#[test]
fn a_key_containing_a_colon_survives_the_split() {
    assert_eq!(credential(&basic("u", "a:b:c")).as_deref(), Some("a:b:c"));
}

#[test]
fn an_empty_password_falls_back_to_the_username() {
    // What `curl -u <key>:` sends.
    assert_eq!(credential(&basic("k", "")).as_deref(), Some("k"));
    assert_eq!(credential(&basic("", "")), None);
}

#[test]
fn bearer_is_accepted_and_the_scheme_is_case_insensitive() {
    assert_eq!(credential("Bearer k").as_deref(), Some("k"));
    assert_eq!(credential("bearer k").as_deref(), Some("k"));
    assert_eq!(credential("BASIC dXNlcjprZXk=").as_deref(), Some("key"));
    assert_eq!(credential("Bearer "), None);
    assert_eq!(credential("Digest abc"), None);
    assert_eq!(credential("nonsense"), None);
}

#[test]
fn a_basic_credential_that_is_no_utf8_is_no_credential() {
    assert_eq!(credential(&format!("Basic {}", encode(b"u:\xff\xfe"))), None);
    assert_eq!(
        credential(&format!("Basic {}", encode("u:cl\u{e9}".as_bytes()))).as_deref(),
        Some("cl\u{e9}")
    );
}

#[test]
fn open_admits_everything() {
    let anon = AuthPolicy::Open;
    assert_eq!(anon.authorize(&Method::Get, &HeaderMap::new()), Ok(()));
    assert_eq!(anon.authorize(&Method::Put, &HeaderMap::new()), Ok(()));
    assert!(!anon.is_enabled());
}

#[test]
fn public_pull_reads_anonymously_and_challenges_a_write() {
    let policy = public_pull();
    assert!(
        policy.is_enabled(),
        "the middleware has to run, or the writes it guards arrive unexamined"
    );
    for method in [Method::Get, Method::Head, Method::Options] {
        assert_eq!(
            policy.authorize(&method, &HeaderMap::new()),
            Ok(()),
            "{method:?} is the anonymous pull this mode exists for"
        );
    }
    for method in [Method::Put, Method::Post, Method::Patch, Method::Delete] {
        assert_eq!(
            policy.authorize(&method, &HeaderMap::new()),
            Err(AuthError::Missing),
            "{method:?} must be the challenge that makes a client log in, \
             not a bare refusal"
        );
    }
}

#[test]
fn public_pull_admits_the_write_key_to_everything() {
    let policy = public_pull();
    let headers = headers("Bearer write-key");
    for method in [
        Method::Get,
        Method::Head,
        Method::Put,
        Method::Post,
        Method::Patch,
        Method::Delete,
    ] {
        assert_eq!(policy.authorize(&method, &headers), Ok(()));
    }
}

#[test]
fn public_pull_checks_a_credential_it_did_not_require() {
    // For the client that does send a credential: answering `200` to a wrong one
    // makes it wrong nowhere until the push.
    let policy = public_pull();
    assert_eq!(
        policy.authorize(&Method::Get, &headers("Bearer nope")),
        Err(AuthError::Invalid)
    );
    assert_eq!(
        policy.authorize(&Method::Get, &headers("Digest nope")),
        Err(AuthError::Malformed)
    );
    assert_eq!(
        policy.authorize(&Method::Put, &headers("Bearer nope")),
        Err(AuthError::Invalid),
        "and a wrong key on a write is wrong, not merely insufficient - \
         there is no read key in this mode to have been holding"
    );
}

#[test]
fn public_pull_generates_the_one_key_it_needs() {
    let (policy, generated) = AuthPolicy::for_public_pull(None).expect("valid");
    assert!(generated.write, "the write key had to be invented");
    assert!(!generated.read, "there is no read key to report");
    let AuthPolicy::PublicPull { write } = &policy else {
        panic!("for_public_pull must build the public-pull policy");
    };
    assert_eq!(write.expose().len(), 64);
    assert!(AuthPolicy::for_public_pull(Some("  ".to_owned())).is_err());
}

#[test]
fn the_read_key_reads_but_does_not_write() {
    let policy = private();
    let headers = headers("Bearer read-key");
    assert_eq!(policy.authorize(&Method::Get, &headers), Ok(()));
    assert_eq!(policy.authorize(&Method::Head, &headers), Ok(()));
    assert_eq!(
        policy.authorize(&Method::Put, &headers),
        Err(AuthError::Insufficient)
    );
    assert_eq!(
        policy.authorize(&Method::Delete, &headers),
        Err(AuthError::Insufficient)
    );
}

#[test]
fn the_write_key_also_reads() {
    let policy = private();
    let headers = headers("Bearer write-key");
    for method in [
        Method::Get,
        Method::Head,
        Method::Put,
        Method::Post,
        Method::Patch,
        Method::Delete,
    ] {
        assert_eq!(policy.authorize(&method, &headers), Ok(()));
    }
}

#[test]
fn one_key_used_for_both_keeps_its_write_access() {
    let policy = AuthPolicy::Private {
        read: ApiKey::new("same"),
        write: ApiKey::new("same"),
    };
    assert_eq!(
        policy.authorize(&Method::Put, &headers("Bearer same")),
        Ok(())
    );
}

#[test]
fn a_missing_or_wrong_credential_is_distinguished() {
    let policy = private();
    assert_eq!(
        policy.authorize(&Method::Get, &HeaderMap::new()),
        Err(AuthError::Missing)
    );
    assert_eq!(
        policy.authorize(&Method::Get, &headers("Bearer nope")),
        Err(AuthError::Invalid)
    );
    assert_eq!(
        policy.authorize(&Method::Get, &headers("Digest nope")),
        Err(AuthError::Malformed)
    );
    assert_eq!(
        policy.authorize(&Method::Get, &headers("Basic %%%")),
        Err(AuthError::Malformed)
    );
}

#[test]
fn a_header_that_is_not_text_is_malformed() {
    let mut map = HeaderMap::new();
    map.insert(
        "authorization",
        HeaderValue::from_bytes(b"Bearer \xff").expect("opaque bytes are a header value"),
    );
    assert_eq!(
        private().authorize(&Method::Get, &map),
        Err(AuthError::Malformed)
    );
    assert_eq!(
        private().decide(&Method::Get, Some(b"Bearer read-key".to_vec())),
        Ok(())
    );
    assert_eq!(
        private().decide(&Method::Get, None),
        Err(AuthError::Missing)
    );
}

#[test]
fn an_unknown_method_needs_write() {
    // The safe side: a method nobody has classified must not be readable by a
    // read key on the assumption that it is harmless.
    let unknown = Method::from_token("FROBNICATE");
    assert_eq!(Access::of(&unknown), Access::Write);
}

#[test]
fn methods_are_known_by_their_exact_token() {
    for (token, method) in [
        ("GET", Method::Get),
        ("HEAD", Method::Head),
        ("OPTIONS", Method::Options),
        ("PUT", Method::Put),
        ("POST", Method::Post),
        ("PATCH", Method::Patch),
        ("DELETE", Method::Delete),
    ] {
        assert_eq!(Method::from_token(token), method);
    }
    assert_eq!(Method::from_token("get"), Method::Other("get".to_owned()));
    assert_eq!(Access::of(&Method::Options), Access::Read);
    assert_eq!(Access::of(&Method::Get), Access::Read);
    assert_eq!(Access::of(&Method::Head), Access::Read);
    assert_eq!(Access::of(&Method::Delete), Access::Write);
}

#[test]
fn matching_rejects_the_empty_string_and_prefixes() {
    let key = ApiKey::new("abcdef");
    assert!(key.matches("abcdef"));
    assert!(!key.matches(""));
    assert!(!key.matches("abcde"));
    assert!(!key.matches("abcdefg"));
    assert!(
        !key.matches("abcdefabcdef"),
        "a repeat must not fold to equal"
    );
    assert!(!ApiKey::new("").matches(""));
}

#[test]
fn a_repeat_does_not_match_at_any_length() {
    let key = ApiKey::new("a");
    assert!(key.matches("a"));
    assert!(!key.matches(&"a".repeat(257)));
    assert!(!ApiKey::new(&"a".repeat(257)).matches("a"));
}

#[test]
fn a_generated_key_is_64_hex_characters_and_not_the_last_one() {
    let key = ApiKey::generate();
    assert_eq!(key.expose().len(), 64);
    assert!(key.expose().bytes().all(|b| b.is_ascii_hexdigit()));
    assert_ne!(key.expose(), ApiKey::generate().expose());
    // Each half is a random UUID.
    for half in [&key.expose()[..32], &key.expose()[32..]] {
        assert_eq!(&half[12..13], "4", "{half}");
        assert!("89ab".contains(&half[16..17]), "{half}");
    }
}

#[test]
fn a_key_is_the_hex_of_its_bytes() {
    let key = ApiKey::from_bytes(&[0xa5; 16], &[0x0f; 16]);
    assert_eq!(
        key.expose(),
        "a5a5a5a5a5a5a5a5a5a5a5a5a5a5a5a50f0f0f0f0f0f0f0f0f0f0f0f0f0f0f0f"
    );
}

#[test]
fn a_key_never_reaches_a_log_through_debug() {
    let policy = private();
    let rendered = policy.debug_text();
    assert!(!rendered.contains("read-key"), "{rendered}");
    assert!(!rendered.contains("write-key"), "{rendered}");
    let key = ApiKey::new("read-key").debug_text();
    assert!(!key.contains("read-key"), "{key}");
}

#[test]
fn an_empty_supplied_key_is_a_startup_error() {
    assert!(AuthPolicy::for_private(Some("  ".to_owned()), None).is_err());
    assert!(AuthPolicy::for_private(None, Some(String::new())).is_err());
}

#[test]
fn absent_keys_are_generated_and_reported_as_such() {
    let (policy, generated) =
        AuthPolicy::for_private(Some("mine".to_owned()), None).expect("valid");
    assert!(!generated.read);
    assert!(generated.write, "the write key had to be invented");
    assert_eq!(
        policy.authorize(&Method::Get, &headers("Bearer mine")),
        Ok(())
    );
}

#[test]
fn the_challenge_is_sent_on_a_401_and_withheld_on_a_403() {
    for err in [AuthError::Missing, AuthError::Malformed, AuthError::Invalid] {
        let reply = err.into_api_error().into_response();
        assert_eq!(reply.status, 401);
        let challenge = reply
            .headers
            .iter()
            .find(|(name, _)| name == "www-authenticate")
            .map(|(_, value)| value.clone())
            .unwrap_or_default();
        assert!(challenge.starts_with("Basic "), "{challenge}");
        assert!(challenge.contains("realm=\"summ\""), "{challenge}");
    }

    let reply = AuthError::Insufficient.into_api_error().into_response();
    assert_eq!(reply.status, 403);
    assert!(reply
        .headers
        .iter()
        .all(|(name, _)| name != "www-authenticate"));
}

#[test]
fn a_refusal_names_its_code() {
    assert_eq!(
        AuthError::Missing.into_api_error().code(),
        ErrorCode::Unauthorized
    );
    assert_eq!(
        AuthError::Insufficient.into_api_error().code(),
        ErrorCode::Denied
    );
}

#[test]
fn copies_of_a_policy_admit_the_same() {
    let policy = private().copy();
    assert_eq!(
        policy.authorize(&Method::Put, &headers("Bearer write-key")),
        Ok(())
    );
    assert_eq!(ApiKey::new("k").copy().expose(), "k");
}
