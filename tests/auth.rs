use chaum_pedersen::auth::{AuthError, AuthImpl};
use chaum_pedersen::bignum::BigNum;
use chaum_pedersen::zkp::ZKP;

fn register_secret(auth: &mut AuthImpl, zkp: &ZKP, name: &str, x: &BigNum) {
    let (y1, y2) = zkp.compute_pair(x);
    auth.register(name.to_string(), y1, y2);
}

#[test]
fn test_end_to_end_auth_flow() {
    let zkp = ZKP::new();
    let mut auth = AuthImpl::new();
    let x = ZKP::generate_random_number_below(&zkp.q);
    register_secret(&mut auth, &zkp, "alice", &x);

    let k = ZKP::generate_random_number_below(&zkp.q);
    let (r1, r2) = zkp.compute_pair(&k);
    let (auth_id, c) = auth.create_authentication_challenge("alice", r1, r2).unwrap();

    let s = zkp.solve(&k, &c, &x);
    match auth.verify_authentication(&auth_id, s) {
        Ok(session_id) => assert!(!session_id.is_empty(), "Session ID should not be empty"),
        Err(e) => panic!("Auth verification failed with error: {:?}", e),
    }
}

#[test]
fn alice_with_secret_seven_and_ephemeral_three_logs_in() {
    let zkp = ZKP::new();
    let mut auth = AuthImpl::new();
    let x = BigNum::from_u64(7);
    let (y1, y2) = zkp.compute_pair(&x);
    auth.register("alice".to_string(), y1.copy_value(), y2.copy_value());

    let k = BigNum::from_u64(3);
    let (r1, r2) = zkp.compute_pair(&k);
    let (auth_id, c) = auth
        .create_authentication_challenge("alice", r1.copy_value(), r2.copy_value())
        .unwrap();
    assert_eq!(auth_id.len(), 12);
    assert!(c.less_than(&zkp.q));

    let s = zkp.solve(&k, &c, &x);
    assert!(zkp.verify(&r1, &r2, &y1, &y2, &c, &s));
    let session_id = auth.verify_authentication(&auth_id, s).unwrap();
    assert!(!session_id.is_empty());
    assert_eq!(session_id.len(), 12);
    assert!(session_id.chars().all(|ch| ch.is_ascii_alphanumeric()));
}

#[test]
fn challenge_for_unknown_user_is_not_found() {
    let zkp = ZKP::new();
    let mut auth = AuthImpl::new();
    register_secret(&mut auth, &zkp, "alice", &BigNum::from_u64(7));
    let (r1, r2) = zkp.compute_pair(&BigNum::from_u64(3));
    let r = auth.create_authentication_challenge("bob", r1, r2);
    assert_eq!(r.err(), Some(AuthError::NotFound));
}

#[test]
fn verification_of_unknown_id_is_not_found() {
    let mut auth = AuthImpl::new();
    let r = auth.verify_authentication("NOSUCHID0000", BigNum::from_u64(1));
    assert_eq!(r, Err(AuthError::NotFound));
}

#[test]
fn wrong_response_is_invalid_proof() {
    let zkp = ZKP::new();
    let mut auth = AuthImpl::new();
    let x = BigNum::from_u64(7);
    register_secret(&mut auth, &zkp, "alice", &x);
    let k = BigNum::from_u64(3);
    let (r1, r2) = zkp.compute_pair(&k);
    let (auth_id, c) = auth.create_authentication_challenge("alice", r1, r2).unwrap();
    let wrong = zkp.solve(&k, &c, &x).add(&BigNum::from_u64(1)).rem(&zkp.q);
    assert_eq!(auth.verify_authentication(&auth_id, wrong), Err(AuthError::InvalidProof));
}

#[test]
fn wrong_secret_is_invalid_proof() {
    let zkp = ZKP::new();
    let mut auth = AuthImpl::new();
    register_secret(&mut auth, &zkp, "alice", &BigNum::from_u64(7));
    let k = BigNum::from_u64(3);
    let (r1, r2) = zkp.compute_pair(&k);
    let (auth_id, c) = auth.create_authentication_challenge("alice", r1, r2).unwrap();
    let s = zkp.solve(&k, &c, &BigNum::from_u64(8));
    assert_eq!(auth.verify_authentication(&auth_id, s), Err(AuthError::InvalidProof));
}

#[test]
fn challenge_is_used_up_by_verification() {
    let zkp = ZKP::new();
    let mut auth = AuthImpl::new();
    let x = BigNum::from_u64(7);
    register_secret(&mut auth, &zkp, "alice", &x);
    let k = BigNum::from_u64(3);
    let (r1, r2) = zkp.compute_pair(&k);
    let (auth_id, c) = auth.create_authentication_challenge("alice", r1, r2).unwrap();
    let s = zkp.solve(&k, &c, &x);
    assert!(auth.verify_authentication(&auth_id, s.copy_value()).is_ok());
    assert_eq!(auth.verify_authentication(&auth_id, s), Err(AuthError::NotFound));
}

#[test]
fn challenges_for_two_users_are_independent() {
    let zkp = ZKP::new();
    let mut auth = AuthImpl::new();
    let xa = BigNum::from_u64(7);
    let xb = BigNum::from_u64(11);
    register_secret(&mut auth, &zkp, "alice", &xa);
    register_secret(&mut auth, &zkp, "bob", &xb);
    let ka = BigNum::from_u64(3);
    let kb = BigNum::from_u64(5);
    let (ra1, ra2) = zkp.compute_pair(&ka);
    let (rb1, rb2) = zkp.compute_pair(&kb);
    let (ida, ca) = auth.create_authentication_challenge("alice", ra1, ra2).unwrap();
    let (idb, cb) = auth.create_authentication_challenge("bob", rb1, rb2).unwrap();
    assert_ne!(ida, idb);
    // Verify in the opposite order of issue.
    assert!(auth.verify_authentication(&idb, zkp.solve(&kb, &cb, &xb)).is_ok());
    assert!(auth.verify_authentication(&ida, zkp.solve(&ka, &ca, &xa)).is_ok());
}

#[test]
fn two_pending_challenges_for_one_user() {
    let zkp = ZKP::new();
    let mut auth = AuthImpl::new();
    let x = BigNum::from_u64(42);
    register_secret(&mut auth, &zkp, "carol", &x);
    let k1 = BigNum::from_u64(9);
    let k2 = BigNum::from_u64(10);
    let (a1, a2) = zkp.compute_pair(&k1);
    let (b1, b2) = zkp.compute_pair(&k2);
    let (id1, c1) = auth.create_authentication_challenge("carol", a1, a2).unwrap();
    let (id2, c2) = auth.create_authentication_challenge("carol", b1, b2).unwrap();
    assert_ne!(id1, id2);
    assert!(auth.verify_authentication(&id1, zkp.solve(&k1, &c1, &x)).is_ok());
    assert!(auth.verify_authentication(&id2, zkp.solve(&k2, &c2, &x)).is_ok());
}

#[test]
fn re_registration_replaces_commitments() {
    let zkp = ZKP::new();
    let mut auth = AuthImpl::new();
    register_secret(&mut auth, &zkp, "dave", &BigNum::from_u64(7));
    let new_secret = BigNum::from_u64(8);
    register_secret(&mut auth, &zkp, "dave", &new_secret);
    let k = BigNum::from_u64(3);
    let (r1, r2) = zkp.compute_pair(&k);
    let (id, c) = auth.create_authentication_challenge("dave", r1, r2).unwrap();
    assert!(auth.verify_authentication(&id, zkp.solve(&k, &c, &new_secret)).is_ok());
    let (r1, r2) = zkp.compute_pair(&k);
    let (id, c) = auth.create_authentication_challenge("dave", r1, r2).unwrap();
    let old = zkp.solve(&k, &c, &BigNum::from_u64(7));
    assert_eq!(auth.verify_authentication(&id, old), Err(AuthError::InvalidProof));
}

#[test]
fn open_challenge_reports_each_outcome() {
    let zkp = ZKP::new();
    let mut auth = AuthImpl::new();
    let x = BigNum::from_u64(7);
    register_secret(&mut auth, &zkp, "erin", &x);
    let k = BigNum::from_u64(3);
    let id = "FIXEDID00001".to_string();
    let (r1, r2) = zkp.compute_pair(&k);
    let missing = auth.open_challenge(&"frank".to_string(), r1, r2, BigNum::from_u64(5), &id);
    assert_eq!(missing, Err(AuthError::NotFound));
    let (r1, r2) = zkp.compute_pair(&k);
    assert_eq!(auth.open_challenge(&"erin".to_string(), r1, r2, BigNum::from_u64(5), &id), Ok(()));
    let (r1, r2) = zkp.compute_pair(&k);
    let again = auth.open_challenge(&"erin".to_string(), r1, r2, BigNum::from_u64(6), &id);
    assert_eq!(again, Err(AuthError::IdCollision));
    // The first challenge (c = 5) is still the one pending.
    let s = zkp.solve(&k, &BigNum::from_u64(5), &x);
    assert!(auth.verify_authentication(&id, s).is_ok());
}
