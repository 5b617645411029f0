use stampa::auth::{check_password, hash_outcome, hash_password, password_outcome, validate_form};
use stampa::auth::{verdict_outcome, verify_password};
use stampa::cloud::{CloudClient, ObjectStore};
use stampa::errors::{AppError, AppErrorType};
use stampa::handlers::auth::{get_crendentials, login, register, register_as};
use stampa::handlers::auth::{LoginPayload, RegisterPayload};
use stampa::handlers::users::me;
use stampa::models::User;
use stampa::oid::ObjectId;
use stampa::state::AppState;
use stampa::utils::{expiration, generate_credentials, Claims};

fn id(n: u8) -> ObjectId {
    ObjectId::from_bytes([n, 0, 0, 0, 0, 0, 0, 0, 0, 0, 0, n])
}

fn quick_hash(password: &str) -> String {
    bcrypt::hash(password, 4).unwrap()
}

fn store_with_application_bucket() -> ObjectStore {
    let mut store = ObjectStore::new();
    CloudClient::create_bucket(&mut store, "user-avatar-stampa".to_string(), "eu-west-3".to_string())
        .unwrap();
    store
}

fn state_with_alice(password: &str) -> AppState {
    let mut app = AppState::new();
    app.users
        .create(User {
            id: id(1),
            username: "alice1".to_string(),
            password: quick_hash(password),
            avatar: String::new(),
            projects: Vec::new(),
            invitations: Vec::new(),
        })
        .unwrap();
    app
}

#[test]
fn a_token_is_good_for_365_days() {
    assert_eq!(expiration(0), 31_536_000);
    assert_eq!(expiration(1_700_000_000), 1_731_536_000);
    assert_eq!(expiration(-31_536_000), 0);
    assert_eq!(expiration(-31_535_999), 1);
    assert_eq!(expiration(-31_536_001), 0);
    assert_eq!(expiration(i64::MIN), 0);
    assert_eq!(expiration(i64::MAX) as u128, (i64::MAX as u128 + 31_536_000).min(usize::MAX as u128));
}

#[test]
fn claims_name_their_bearer() {
    let claims = Claims::issued_at(id(5), 1_000);
    assert_eq!(claims.sub, "050000000000000000000005");
    assert_eq!(claims.exp, 31_537_000);
    assert_eq!(claims.id, id(5));
    let now = std::time::SystemTime::now()
        .duration_since(std::time::UNIX_EPOCH)
        .unwrap()
        .as_secs() as usize;
    let claims = Claims::issue(id(5));
    assert_eq!(claims.sub, "050000000000000000000005");
    assert_eq!(claims.id, id(5));
    assert!(claims.exp >= now + 31_536_000);
    assert!(claims.exp <= now + 31_536_000 + 60);
}

#[test]
fn credentials_are_seven_letters_and_digits() {
    let (key, secret) = generate_credentials();
    assert_eq!(key.chars().count(), 7);
    assert_eq!(secret.chars().count(), 7);
    assert!(key.chars().all(|c| c.is_ascii_alphanumeric()));
    assert!(secret.chars().all(|c| c.is_ascii_alphanumeric()));
    let (other, _) = generate_credentials();
    let (third, _) = generate_credentials();
    assert!(key != other || key != third || key != secret);
}

#[test]
fn a_form_needs_six_characters_in_each_field() {
    assert!(validate_form("alice1", "secret").is_ok());
    assert!(validate_form("\u{e9}\u{e9}\u{e9}\u{e9}\u{e9}\u{e9}", "\u{20ac}\u{20ac}\u{20ac}\u{20ac}\u{20ac}\u{20ac}").is_ok());
    let e = validate_form("alice", "secret").unwrap_err();
    assert_eq!(e.error_type, AppErrorType::UnvalidFormError);
    assert_eq!(e.message(), "The username must have at least 6 characters");
    assert_eq!(e.status_code(), 401);
    let e = validate_form("alice1", "secre").unwrap_err();
    assert_eq!(e.message(), "The password must have at least 6 characters");
    let e = validate_form("", "").unwrap_err();
    assert_eq!(e.message(), "The username must have at least 6 characters");
    let payload = RegisterPayload { username: "bob".to_string(), password: "secret".to_string() };
    assert!(payload.validate().is_err());
    let payload = LoginPayload { username: "bobby1".to_string(), password: "secret".to_string() };
    assert!(payload.validate().is_ok());
}

#[test]
fn a_password_is_checked_against_its_hash() {
    let hash = quick_hash("correct horse");
    assert!(verify_password("correct horse", &hash).is_ok());
    let e = verify_password("wrong horse", &hash).unwrap_err();
    assert_eq!(e.error_type, AppErrorType::LoginError);
    assert_eq!(e.message(), "Can not login the user.");
    let e = verify_password("correct horse", "not a hash").unwrap_err();
    assert_eq!(e.error_type, AppErrorType::DbError);
    assert_eq!(e.message(), "An internal error occured");
    // A password is not its own hash.
    assert!(verify_password("correct horse", "correct horse").is_err());
    assert!(check_password("correct horse", &hash, "alice1").is_ok());
    let e = check_password("wrong horse", &hash, "alice1").unwrap_err();
    assert_eq!(e.error_type, AppErrorType::LoginError);
    assert_eq!(e.message(), "Can not login user alice1.");
    assert_eq!(e.status_code(), 401);
    assert_eq!(check_password("x", "not a hash", "alice1").unwrap_err().error_type, AppErrorType::DbError);
}

#[test]
fn a_verdict_is_turned_into_an_outcome() {
    assert!(password_outcome(Ok(true), "alice1").is_ok());
    assert_eq!(password_outcome(Ok(false), "alice1").unwrap_err().message(), "Can not login user alice1.");
    let e = password_outcome(Err("bad hash".to_string()), "alice1").unwrap_err();
    assert_eq!(e.error_type, AppErrorType::DbError);
    assert_eq!(e.cause.as_deref(), Some("bad hash"));
    assert!(verdict_outcome(Ok(true)).is_ok());
    let e = verdict_outcome(Ok(false)).unwrap_err();
    assert_eq!(e.error_type, AppErrorType::LoginError);
    assert_eq!(e.cause.as_deref(), Some("Can not login the user."));
    assert_eq!(verdict_outcome(Err("bad hash".to_string())).unwrap_err().cause.as_deref(), Some("bad hash"));
    assert_eq!(hash_outcome(Ok("h".to_string())).unwrap(), "h");
    let e = hash_outcome(Err("no entropy".to_string())).unwrap_err();
    assert_eq!(e.error_type, AppErrorType::DbError);
    assert_eq!(e.cause.as_deref(), Some("no entropy"));
}

#[test]
fn a_password_is_hashed_so_that_it_checks() {
    let hash = hash_password("correct horse").unwrap();
    assert_ne!(hash, "correct horse");
    assert_eq!(hash.chars().count(), 60);
    assert!(bcrypt::verify("correct horse", &hash).unwrap());
    assert!(!bcrypt::verify("wrong horse", &hash).unwrap());
    assert!(verify_password("correct horse", &hash).is_ok());
    assert!(verify_password("wrong horse", &hash).is_err());
    // A long password, and one that is not plain ASCII, check against their hashes too.
    let long = "x".repeat(100);
    assert!(verify_password(&long, &hash_password(&long).unwrap()).is_ok());
    let accented = "m\u{f4}t de passe";
    assert!(verify_password(accented, &hash_password(accented).unwrap()).is_ok());
    assert!(verify_password("", &hash_password("").unwrap()).is_ok());
}

#[test]
fn login_hands_out_the_claims_of_the_user() {
    let app = state_with_alice("secret1");
    let form = LoginPayload { username: "alice1".to_string(), password: "secret1".to_string() };
    let claims = login(&app, &form).unwrap();
    assert_eq!(claims.id, id(1));
    assert_eq!(claims.sub, "010000000000000000000001");
    let claims = get_crendentials(&app, &form).unwrap();
    assert_eq!(claims.id, id(1));
}

#[test]
fn login_fails_on_a_bad_form_an_unknown_name_or_a_wrong_password() {
    let app = state_with_alice("secret1");
    let form = LoginPayload { username: "alice".to_string(), password: "secret1".to_string() };
    assert_eq!(login(&app, &form).unwrap_err().error_type, AppErrorType::UnvalidFormError);
    let form = LoginPayload { username: "nobody".to_string(), password: "secret1".to_string() };
    let e = login(&app, &form).unwrap_err();
    assert_eq!(e.error_type, AppErrorType::NotFoundError);
    assert_eq!(e.message(), "The ressource nobody was not found");
    let form = LoginPayload { username: "alice1".to_string(), password: "secret2".to_string() };
    let e = login(&app, &form).unwrap_err();
    assert_eq!(e.error_type, AppErrorType::LoginError);
    assert_eq!(e.message(), "Can not login user alice1.");
    let e = get_crendentials(&app, &form).unwrap_err();
    assert_eq!(e.error_type, AppErrorType::LoginError);
    assert_eq!(e.message(), "Can not login the user.");
    let form = LoginPayload { username: "nobody".to_string(), password: "x".to_string() };
    assert_eq!(get_crendentials(&app, &form).unwrap_err().error_type, AppErrorType::NotFoundError);
}

#[test]
fn registration_files_the_user_and_stores_the_picture() {
    let mut app = AppState::new();
    let mut store = store_with_application_bucket();
    let form = RegisterPayload { username: "alice1".to_string(), password: "secret1".to_string() };
    let claims = register(&mut app, &mut store, &form, vec![1, 2, 3]).unwrap();
    let alice = app.users.get(claims.id).unwrap();
    assert_eq!(alice.username, "alice1");
    assert!(alice.projects.is_empty());
    assert!(alice.invitations.is_empty());
    assert_eq!(
        alice.avatar,
        format!("https://user-avatar-stampa.s3.eu-west-3.amazonaws.com/{}", claims.id.to_hex())
    );
    assert!(bcrypt::verify("secret1", &alice.password).unwrap());
    assert_eq!(claims.sub, claims.id.to_hex());
    assert_eq!(store.writes(), 1);
    let client = CloudClient::new_application_client().unwrap();
    assert_eq!(client.get_object(&store, &claims.id.to_hex()).unwrap(), vec![1, 2, 3]);
    assert_eq!(me(&app, &claims).unwrap().username, "alice1");
    // The new user can log in.
    let form = LoginPayload { username: "alice1".to_string(), password: "secret1".to_string() };
    assert_eq!(login(&app, &form).unwrap().id, claims.id);
}

#[test]
fn registration_is_refused_before_anything_is_written() {
    let mut app = state_with_alice("secret1");
    let mut store = store_with_application_bucket();
    let form = RegisterPayload { username: "bob".to_string(), password: "secret1".to_string() };
    let e = register(&mut app, &mut store, &form, vec![1]).unwrap_err();
    assert_eq!(e.error_type, AppErrorType::UnvalidFormError);
    let form = RegisterPayload { username: "alice1".to_string(), password: "secret2".to_string() };
    let e = register(&mut app, &mut store, &form, vec![1]).unwrap_err();
    assert_eq!(e.error_type, AppErrorType::UserExistError);
    assert_eq!(e.message(), "User alice1 already exist.");
    assert_eq!(store.writes(), 0);
    let form = RegisterPayload { username: "bobby1".to_string(), password: "secret1".to_string() };
    let failed = Err(AppError::db_error("no entropy"));
    let e = register_as(&mut app, &mut store, &form, vec![1], id(2), failed).unwrap_err();
    assert_eq!(e.error_type, AppErrorType::DbError);
    assert_eq!(e.cause.as_deref(), Some("no entropy"));
    assert_eq!(store.writes(), 0);
    let mut bare = ObjectStore::new();
    let e = register_as(&mut app, &mut bare, &form, vec![1], id(2), Ok("hash".to_string())).unwrap_err();
    assert_eq!(e.error_type, AppErrorType::S3Error);
    assert_eq!(bare.writes(), 0);
    assert!(app.users.get(id(2)).is_err());
    assert!(app.users.get_by_username("bobby1").is_err());
}

#[test]
fn registration_under_a_used_identifier_leaves_the_picture_behind() {
    let mut app = state_with_alice("secret1");
    let mut store = store_with_application_bucket();
    let form = RegisterPayload { username: "bobby1".to_string(), password: "secret1".to_string() };
    let e = register_as(&mut app, &mut store, &form, vec![1], id(1), Ok("hash".to_string())).unwrap_err();
    assert_eq!(e.error_type, AppErrorType::DbError);
    assert_eq!(store.writes(), 1);
    assert_eq!(app.users.get(id(1)).unwrap().username, "alice1");
    let claims = register_as(&mut app, &mut store, &form, vec![2], id(2), Ok("hash".to_string())).unwrap();
    assert_eq!(claims.id, id(2));
    assert_eq!(app.users.get(id(2)).unwrap().password, "hash");
    assert_eq!(me(&app, &Claims::issued_at(id(3), 0)).unwrap_err().error_type, AppErrorType::NotFoundError);
}

#[test]
fn register_user() {
    let mut app = AppState::new();
    let mut store = store_with_application_bucket();
    let form = RegisterPayload {
        username: "test-username".to_string(),
        password: "test-password".to_string(),
    };
    let claims = register(&mut app, &mut store, &form, vec![0]).unwrap();
    assert_eq!(app.users.get(claims.id).unwrap().username, "test-username");
}

#[test]
fn login_user() {
    let mut app = AppState::new();
    let mut store = store_with_application_bucket();
    let form = RegisterPayload {
        username: "test-username".to_string(),
        password: "test-password".to_string(),
    };
    let registered = register(&mut app, &mut store, &form, vec![0]).unwrap();
    let form = LoginPayload {
        username: "test-username".to_string(),
        password: "test-password".to_string(),
    };
    let claims = login(&app, &form).unwrap();
    assert_eq!(claims.id, registered.id);
}
