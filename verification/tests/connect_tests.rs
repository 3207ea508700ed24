use daprox::connect::{connect_plan, ssl_policy_of_uri, sslmode_value, tls_attempt_uri, SslPolicy};
use daprox::error::SqlError;

fn s(v: &str) -> String {
    v.to_string()
}

#[test]
fn sslmode_parameter_is_found_in_the_query() {
    assert_eq!(
        sslmode_value("postgres://host/db?sslmode=require"),
        Some(s("require"))
    );
    assert_eq!(
        sslmode_value("postgres://host/db?a=b&sslmode=disable&c=d"),
        Some(s("disable"))
    );
    assert_eq!(sslmode_value("postgres://host/db"), None);
    assert_eq!(sslmode_value("postgres://host/db?a=b"), None);
    assert_eq!(sslmode_value("postgres://host/db?sslmode="), Some(s("")));
    assert_eq!(
        sslmode_value("postgres://host/db?sslmode=require#frag"),
        Some(s("require"))
    );
}

#[test]
fn unrecognized_sslmode_fails_before_any_network_attempt() {
    let e = ssl_policy_of_uri("postgres://host/db?sslmode=bogus").unwrap_err();
    assert_eq!(e, SqlError::UnsupportedSslMode { mode: s("bogus") });
    assert_eq!(e.message(), "Unsupported sslmode bogus");
    let e = connect_plan("postgres://host/db?sslmode=sideways").unwrap_err();
    assert_eq!(e, SqlError::UnsupportedSslMode { mode: s("sideways") });
}

#[test]
fn absent_or_blank_sslmode_tries_encryption_without_requiring_it() {
    for uri in [
        "postgres://host/db",
        "postgres://host/db?sslmode=",
        "postgres://host/db?sslmode= ",
        "postgres://host/db?other=1",
    ] {
        let p = ssl_policy_of_uri(uri).unwrap();
        assert_eq!(p, SslPolicy { try_tls: true, require_tls: false });
    }
}

#[test]
fn allow_and_prefer_try_without_requiring() {
    for mode in ["allow", "prefer"] {
        let uri = format!("postgres://host/db?sslmode={}", mode);
        let p = ssl_policy_of_uri(&uri).unwrap();
        assert_eq!(p, SslPolicy { try_tls: true, require_tls: false });
    }
}

#[test]
fn require_and_verify_modes_require_encryption() {
    for mode in ["require", "verify-ca", "verify-full"] {
        let uri = format!("postgres://host/db?sslmode={}", mode);
        let p = ssl_policy_of_uri(&uri).unwrap();
        assert_eq!(p, SslPolicy { try_tls: true, require_tls: true });
    }
}

#[test]
fn require_plan_never_falls_back_to_plaintext() {
    let plan = connect_plan("postgres://host/db?sslmode=require").unwrap();
    assert!(plan.try_tls);
    assert!(!plan.plain_fallback);
    let plan = connect_plan("postgres://host/db?sslmode=verify-full").unwrap();
    assert!(plan.try_tls);
    assert!(!plan.plain_fallback);
}

#[test]
fn disable_plan_never_attempts_encryption() {
    let plan = connect_plan("postgres://host/db?sslmode=disable").unwrap();
    assert!(!plan.try_tls);
    assert!(plan.plain_fallback);
}

#[test]
fn default_plan_tries_encryption_with_fallback() {
    let plan = connect_plan("postgres://host/db").unwrap();
    assert!(plan.try_tls);
    assert!(plan.plain_fallback);
    assert_eq!(plan.tls_uri, "postgres://host/db?sslmode=require");
}

#[test]
fn tls_uri_appends_require_only_when_mode_is_absent() {
    assert_eq!(
        tls_attempt_uri("postgres://host/db"),
        "postgres://host/db?sslmode=require"
    );
    assert_eq!(
        tls_attempt_uri("postgres://host/db?a=b"),
        "postgres://host/db?a=b&sslmode=require"
    );
    assert_eq!(
        tls_attempt_uri("postgres://host/db?sslmode=prefer"),
        "postgres://host/db?sslmode=prefer"
    );
}
