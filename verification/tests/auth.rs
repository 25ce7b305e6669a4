use spektra::auth::{
    bootstrap_email, check_login, decoy_hash, generate_token, hash_password, normalize_email,
    session_expires_at, verify, Account, LoginRefusal, TOKEN_BYTES,
};
use spektra::auth::{session_holds, session_token, SessionLookup, TokenRefusal};
use spektra::identity::{generate, IDENTITY_BYTES};
use spektra::visibility::may_edit_node;

#[test]
fn a_password_verifies_against_its_own_hash() {
    let hash = hash_password("correct horse battery staple").expect("a hash");

    assert!(verify("correct horse battery staple", &hash));
}

#[test]
fn a_wrong_password_does_not_verify() {
    let hash = hash_password("correct horse battery staple").expect("a hash");

    assert!(!verify("Correct horse battery staple", &hash));
    assert!(!verify("", &hash));
    assert!(!verify("correct horse battery stapl", &hash));
}

#[test]
fn the_same_password_hashes_differently_every_time() {
    let first = hash_password("hunter2").expect("a hash");
    let second = hash_password("hunter2").expect("a hash");

    assert_ne!(first, second);
    assert!(verify("hunter2", &first));
    assert!(verify("hunter2", &second));
}

#[test]
fn a_hash_is_a_phc_string() {
    let hash = hash_password("hunter2").expect("a hash");

    assert!(hash.starts_with("$argon2id$"), "got {hash}");
}

#[test]
fn a_corrupt_hash_is_not_a_match() {
    assert!(!verify("hunter2", "not a hash at all"));
    assert!(!verify("hunter2", ""));
}

#[test]
fn the_decoy_is_a_real_hash_that_matches_nothing_a_user_would_pick() {
    let decoy = decoy_hash();

    assert!(decoy.starts_with("$argon2id$"));
    assert!(!verify("hunter2", &decoy));
}

#[test]
fn a_token_is_sixty_four_hex_characters() {
    let token = generate_token().expect("a token");

    assert_eq!(token.len(), TOKEN_BYTES * 2);
    assert!(token.chars().all(|c| c.is_ascii_hexdigit()));
    assert_ne!(token, generate_token().expect("a token"));
}

#[test]
fn an_identity_is_thirty_two_hex_characters() {
    let value = generate().expect("an identity");

    assert_eq!(value.len(), IDENTITY_BYTES * 2);
    assert!(value.chars().all(|c| c.is_ascii_hexdigit()));
}

#[test]
fn two_identities_do_not_collide() {
    assert_ne!(
        generate().expect("an identity"),
        generate().expect("an identity")
    );
}

#[test]
fn an_unknown_account_and_a_wrong_password_read_the_same() {
    let hash = hash_password("correct horse battery staple").expect("a hash");
    let active = Account {
        user_id: 7,
        password_hash: hash.clone(),
        deactivated: false,
    };
    let switched_off = Account {
        user_id: 8,
        password_hash: hash,
        deactivated: true,
    };

    assert_eq!(
        check_login("correct horse battery staple", None),
        Err(LoginRefusal::WrongCredentials)
    );
    assert_eq!(
        check_login("wrong", Some(&active)),
        Err(LoginRefusal::WrongCredentials)
    );
    assert_eq!(
        check_login("wrong", Some(&switched_off)),
        Err(LoginRefusal::WrongCredentials)
    );
    assert_eq!(
        check_login("correct horse battery staple", Some(&switched_off)),
        Err(LoginRefusal::Deactivated)
    );
    assert_eq!(
        check_login("correct horse battery staple", Some(&active)),
        Ok(7)
    );
}

#[test]
fn an_address_is_looked_up_trimmed_and_lowercased() {
    assert_eq!(normalize_email("  Ops@Example.DK "), "ops@example.dk");
}

#[test]
fn a_session_lasts_twelve_hours() {
    assert_eq!(session_expires_at(0), 12 * 3_600_000);
}

#[test]
fn the_first_administrator_needs_both_settings() {
    assert_eq!(
        bootstrap_email(Some(" Admin@Example.DK"), Some("secret")),
        Some("admin@example.dk".to_owned())
    );
    assert_eq!(bootstrap_email(Some("   "), Some("secret")), None);
    assert_eq!(bootstrap_email(Some("admin@example.dk"), Some("")), None);
    assert_eq!(bootstrap_email(None, Some("secret")), None);
}

#[test]
fn a_cookie_wins_over_a_bearer_header() {
    assert_eq!(session_token(Some(" abc "), Some(Some("Bearer xyz"))), Ok("abc".to_owned()));
    assert_eq!(session_token(Some("  "), Some(Some("Bearer xyz "))), Ok("xyz".to_owned()));
    assert_eq!(session_token(None, Some(Some("Basic xyz"))), Err(TokenRefusal::Missing));
    assert_eq!(session_token(None, Some(Some("Bearer   "))), Err(TokenRefusal::Missing));
    assert_eq!(session_token(None, Some(None)), Err(TokenRefusal::InvalidHeader));
    assert_eq!(session_token(None, None), Err(TokenRefusal::Missing));
}

#[test]
fn a_socket_outlives_its_session_only_while_the_store_is_down() {
    assert!(session_holds(
        SessionLookup::Found {
            expires_at: 100,
            deactivated: false
        },
        100
    ));
    assert!(!session_holds(
        SessionLookup::Found {
            expires_at: 99,
            deactivated: false
        },
        100
    ));
    assert!(!session_holds(
        SessionLookup::Found {
            expires_at: 200,
            deactivated: true
        },
        100
    ));
    assert!(!session_holds(SessionLookup::Missing, 100));
    assert!(session_holds(SessionLookup::Unavailable, 100));
}

#[test]
fn an_owner_may_edit_their_own_node() {
    assert!(may_edit_node(true, None, 1));
    assert!(may_edit_node(false, Some(1), 1));
    assert!(!may_edit_node(false, Some(2), 1));
    assert!(!may_edit_node(false, None, 1));
}
