use apicurio_sync::auth::{AuthProvider, BasicAuthProvider};
use apicurio_sync::client::{
    artifact_meta_route, artifact_version_meta_route, artifacts_route, bearer_token,
    content_route, u64_to_dec,
};
use apicurio_sync::context::{context_for_set, Auth, Context, ContextFile, TokenSet};
use apicurio_sync::error::Error;
use apicurio_sync::provider::ArtifactType;

#[test]
fn environment_url_overrides_the_file_context() {
    let file_ctx = Context::new("work".to_string(), "http://registry.file/".to_string());
    let env_ctx = Context::new(
        "http://registry.env/".to_string(),
        "http://registry.env/".to_string(),
    );
    let merged = Context::merge(Some(file_ctx), Some(env_ctx)).unwrap();
    assert_eq!(merged.context_name, "work");
    assert_eq!(merged.registry_url, "http://registry.env/");
}

#[test]
fn merge_falls_back_to_whichever_side_is_present() {
    let only_file = Context::merge(
        Some(Context::new("work".to_string(), "http://a/".to_string())),
        None,
    )
    .unwrap();
    assert_eq!(only_file.context_name, "work");

    let only_env = Context::merge(
        None,
        Some(Context::new("env".to_string(), "http://b/".to_string())),
    )
    .unwrap();
    assert_eq!(only_env.context_name, "env");

    assert!(Context::merge(None, None).is_none());
}

#[test]
fn from_env_values_names_the_context_after_the_url() {
    let ctx = Context::from_env_values(Some("http://r/".to_string()), None).unwrap();
    assert_eq!(ctx.context_name, "http://r/");
    assert_eq!(ctx.registry_url, "http://r/");
    assert!(Context::from_env_values(None, Some("name".to_string())).is_none());
}

#[test]
fn select_prefers_the_requested_name_over_the_current_pointer() {
    let mut file = ContextFile::empty();
    let mut work = Context::new("work".to_string(), "http://work/".to_string());
    work.set_auth(Auth::Basic {
        username: "u".to_string(),
        password: Some("SECRET-REDACTED".to_string()),
    });
    file.upsert(&work, true);
    file.upsert(
        &Context::new("play".to_string(), "http://play/".to_string()),
        false,
    );

    let by_name = file.select(Some("play".to_string())).unwrap();
    assert_eq!(by_name.registry_url, "http://play/");

    let current = file.select(None).unwrap();
    assert_eq!(current.context_name, "work");
    assert_eq!(current.registry_url, "http://work/");
    assert!(matches!(current.auth, Auth::Basic { .. }));

    assert!(file.select(Some("absent".to_string())).is_none());
}

#[test]
fn context_set_requires_a_url_for_a_new_context() {
    let err = context_for_set(None, &"fresh".to_string(), None);
    assert!(matches!(err, Err(Error::Setup(_))));

    let created = context_for_set(None, &"fresh".to_string(), Some("http://new/".to_string()))
        .unwrap();
    assert_eq!(created.context_name, "fresh");
    assert_eq!(created.registry_url, "http://new/");

    let kept = context_for_set(
        Some(Context::new("work".to_string(), "http://old/".to_string())),
        &"work".to_string(),
        Some("http://new/".to_string()),
    )
    .unwrap();
    assert_eq!(kept.registry_url, "http://new/");
}

#[test]
fn basic_login_attaches_the_credentials() {
    let provider = BasicAuthProvider::new("user".to_string(), Some("SECRET-REDACTED".to_string()));
    let ctx = Context::new("work".to_string(), "http://r/".to_string());
    let logged_in = provider.login(ctx).unwrap();
    match logged_in.auth {
        Auth::Basic { username, password } => {
            assert_eq!(username, "user");
            assert_eq!(password.as_deref(), Some("SECRET-REDACTED"));
        }
        _ => panic!("expected basic credentials"),
    }
}

#[test]
fn token_expiry_adds_the_lifetime_and_saturates() {
    let t = TokenSet::new("tok".to_string(), None, 1_000, Some(3600));
    assert_eq!(t.expires_at, 4_600);

    let never = TokenSet::new("tok".to_string(), None, 1_000, None);
    assert_eq!(never.expires_at, 1_000);

    let capped = TokenSet::new("tok".to_string(), None, i64::MAX - 10, Some(3600));
    assert_eq!(capped.expires_at, i64::MAX);
}

#[test]
fn oidc_auth_carries_the_token_set() {
    let tokens = TokenSet::new("tok".to_string(), Some("refresh".to_string()), 100, Some(60));
    let auth = Auth::oidc("http://issuer/".to_string(), "cli".to_string(), tokens);
    match &auth {
        Auth::Oidc {
            issuer_url,
            client_id,
            access_token,
            refresh_token,
            expires_at,
        } => {
            assert_eq!(issuer_url, "http://issuer/");
            assert_eq!(client_id, "cli");
            assert_eq!(access_token, "tok");
            assert_eq!(refresh_token.as_deref(), Some("refresh"));
            assert_eq!(*expires_at, 160);
        }
        _ => panic!("expected oidc credentials"),
    }
    let token = bearer_token(&auth);
    assert_eq!(token.map(|t| t.as_str()), Some("tok"));
    assert!(bearer_token(&Auth::Anonymous).is_none());
}

#[test]
fn routes_follow_the_registry_api_layout() {
    assert_eq!(
        artifact_meta_route(&"g1".to_string(), &"a1".to_string()),
        "groups/g1/artifacts/a1/meta"
    );
    assert_eq!(
        artifact_version_meta_route(&"g1".to_string(), &"a1".to_string(), &"2".to_string()),
        "groups/g1/artifacts/a1/versions/2/meta"
    );
    assert_eq!(artifacts_route(&"g1".to_string()), "groups/g1/artifacts");
    assert_eq!(content_route(42), "ids/globalIds/42");
}

#[test]
fn numbers_format_in_decimal() {
    assert_eq!(u64_to_dec(0), "0");
    assert_eq!(u64_to_dec(7), "7");
    assert_eq!(u64_to_dec(10042), "10042");
    assert_eq!(u64_to_dec(u64::MAX), "18446744073709551615");
}

#[test]
fn artifact_types_use_their_wire_names() {
    assert_eq!(ArtifactType::Avro.as_str(), "AVRO");
    assert_eq!(ArtifactType::OpenAPI.as_str(), "OPENAPI");
    assert_eq!(ArtifactType::KConnect.as_str(), "KCONNECT");
}

#[test]
fn errors_carry_their_message() {
    let err = Error::setup("URL is required to create a new context");
    assert_eq!(err.message(), "URL is required to create a new context");
    assert!(matches!(err, Error::Setup(_)));
}
