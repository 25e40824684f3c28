use wordcount::auth::{hash_new_password, sign_in, AuthError, SignIn, StoredAccount};

fn is_token(t: &str) -> bool {
    t.len() == 36
        && t.chars().enumerate().all(|(i, c)| {
            if [8, 13, 18, 23].contains(&i) {
                c == '-'
            } else {
                c.is_ascii_digit() || ('a'..='f').contains(&c)
            }
        })
        && t.as_bytes()[14] == b'4'
}

#[test]
fn stored_password_signs_in() {
    let phc = hash_new_password("hunter2").ok().expect("hashing works");
    assert!(phc.starts_with("$argon2id$"));
    let account = StoredAccount { user_id: 7, password_hash: phc };
    match sign_in(Some(&account), "hunter2") {
        Ok(SignIn::Accepted { user_id, session_token }) => {
            assert_eq!(user_id, 7);
            assert!(is_token(&session_token));
        }
        _ => panic!("the stored password must be accepted"),
    }
}

#[test]
fn wrong_password_is_rejected() {
    let phc = hash_new_password("right").ok().expect("hashing works");
    let account = StoredAccount { user_id: 1, password_hash: phc };
    assert!(matches!(sign_in(Some(&account), "wrong"), Ok(SignIn::Rejected)));
}

#[test]
fn unknown_user_is_rejected() {
    assert!(matches!(sign_in(None, "anything"), Ok(SignIn::Rejected)));
}

#[test]
fn malformed_stored_hash_is_an_error() {
    let account = StoredAccount { user_id: 1, password_hash: "not a phc string".to_string() };
    assert!(matches!(sign_in(Some(&account), "x"), Err(AuthError::MalformedStoredHash)));
}

#[test]
fn salts_differ_between_hashes() {
    let a = hash_new_password("same").ok().expect("hashing works");
    let b = hash_new_password("same").ok().expect("hashing works");
    assert_ne!(a, b);
}

#[test]
fn empty_password_still_hashes() {
    assert!(hash_new_password("").is_ok());
}
