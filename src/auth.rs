//! The verifier's state machine: a registry of users' commitments and a
//! store of pending challenges, driven by registration, challenge issuance
//! and proof verification.
use crate::bignum::BigNum;
use crate::store::Store;
use crate::zkp::{accepts, is_token_text, standard_group, ZKP};
use vstd::prelude::*;

verus! {

/// The length of challenge identifiers and session identifiers.
pub const TOKEN_LENGTH: usize = 12;

/// How many identifiers are drawn for a challenge before giving up on
/// finding one that is not in use.
pub const ID_DRAWS: usize = 8;

/// Why an operation failed.
#[derive(Debug, PartialEq, Eq, Structural)]
pub enum AuthError {
    /// No user under that name, or no pending challenge under that identifier.
    NotFound,
    /// The response does not satisfy the verification equation.
    InvalidProof,
    /// Every identifier drawn for a new challenge was already in use.
    IdCollision,
}

/// A registered user's public commitments `y1 = alpha^x`, `y2 = beta^x`.
pub struct UserInfo {
    pub user_name: String,
    pub y1: BigNum,
    pub y2: BigNum,
}

/// A pending proof: the prover's commitments and the challenge sent back.
pub struct ChallengeSession {
    pub user_name: String,
    pub r1: BigNum,
    pub r2: BigNum,
    pub c: BigNum,
}

/// The verifier: registered users and pending challenges.
pub struct AuthImpl {
    user_info: Store<UserInfo>,
    challenges: Store<ChallengeSession>,
    zkp: ZKP,
}

/// Whether `post` is `pre` with the challenge `auth_id` issued to
/// `user_name` for the commitments `r1`, `r2` with challenge `c`.
pub open spec fn issued(
    pre: AuthImpl,
    post: AuthImpl,
    user_name: Seq<char>,
    r1: nat,
    r2: nat,
    c: nat,
    auth_id: Seq<char>,
) -> bool {
    &&& pre.users().contains_key(user_name)
    &&& !pre.sessions().contains_key(auth_id)
    &&& post.users() == pre.users()
    &&& post.group() == pre.group()
    &&& post.sessions().dom() == pre.sessions().dom().insert(auth_id)
    &&& forall|id: Seq<char>| #[trigger]
        pre.sessions().contains_key(id) ==> post.sessions()[id] == pre.sessions()[id]
    &&& post.sessions()[auth_id].user_name@ == user_name
    &&& post.sessions()[auth_id].r1@ == r1
    &&& post.sessions()[auth_id].r2@ == r2
    &&& post.sessions()[auth_id].c@ == c
}

/// Whether the response `s` to the pending challenge `auth_id` is accepted
/// in `state`.
pub open spec fn response_accepted(state: AuthImpl, auth_id: Seq<char>, s: nat) -> bool {
    let session = state.sessions()[auth_id];
    let user = state.users()[session.user_name@];
    accepts(state.group(), session.r1@, session.r2@, user.y1@, user.y2@, session.c@, s)
}

impl AuthImpl {
    /// Registered users, by name.
    pub closed spec fn users(&self) -> Map<Seq<char>, UserInfo> {
        self.user_info@
    }

    /// Pending challenges, by identifier.
    pub closed spec fn sessions(&self) -> Map<Seq<char>, ChallengeSession> {
        self.challenges@
    }

    /// The group parameters in use.
    pub closed spec fn group(&self) -> crate::zkp::GroupValues {
        self.zkp@
    }

    /// The invariant: the stores are well formed, the parameters usable, and
    /// every pending challenge belongs to a registered user.
    pub closed spec fn wf(&self) -> bool {
        &&& self.user_info.wf()
        &&& self.challenges.wf()
        &&& self.zkp.wf()
        &&& forall|id: Seq<char>| #[trigger]
            self.challenges@.contains_key(id) ==> self.user_info@.contains_key(
                self.challenges@[id].user_name@,
            )
    }

    /// A verifier with no users and no pending challenges, over the fixed
    /// group parameters.
    pub fn new() -> (r: AuthImpl)
        ensures
            r.wf(),
            r.users() == Map::<Seq<char>, UserInfo>::empty(),
            r.sessions() == Map::<Seq<char>, ChallengeSession>::empty(),
            r.group() == standard_group(),
    {
        AuthImpl { user_info: Store::new(), challenges: Store::new(), zkp: ZKP::new() }
    }

    /// Stores the commitments `y1`, `y2` for `user_name`, replacing any
    /// stored before.
    pub fn register(&mut self, user_name: String, y1: BigNum, y2: BigNum)
        requires
            old(self).wf(),
        ensures
            final(self).wf(),
            final(self).users().dom() == old(self).users().dom().insert(user_name@),
            final(self).users()[user_name@].user_name@ == user_name@,
            final(self).users()[user_name@].y1@ == y1@,
            final(self).users()[user_name@].y2@ == y2@,
            forall|name: Seq<char>| #[trigger]
                old(self).users().contains_key(name) && name != user_name@
                    ==> final(self).users()[name] == old(self).users()[name],
            final(self).sessions() == old(self).sessions(),
            final(self).group() == old(self).group(),
    {
        let key = user_name.clone();
        let info = UserInfo { user_name, y1, y2 };
        self.user_info.insert(key, info);
    }

    /// Records the challenge `c` under `auth_id` for `user_name`'s
    /// commitments `r1`, `r2`. Fails with `NotFound` when the user is not
    /// registered and with `IdCollision` when `auth_id` is already in use;
    /// nothing changes then.
    pub fn open_challenge(
        &mut self,
        user_name: &String,
        r1: BigNum,
        r2: BigNum,
        c: BigNum,
        auth_id: &String,
    ) -> (r: Result<(), AuthError>)
        requires
            old(self).wf(),
        ensures
            final(self).wf(),
            r == Err::<(), AuthError>(AuthError::NotFound) <==> !old(self).users().contains_key(
                user_name@,
            ),
            r == Err::<(), AuthError>(AuthError::IdCollision) <==> old(self).users().contains_key(
                user_name@,
            ) && old(self).sessions().contains_key(auth_id@),
            r is Ok <==> old(self).users().contains_key(user_name@) && !old(
                self,
            ).sessions().contains_key(auth_id@),
            r is Ok ==> issued(*old(self), *final(self), user_name@, r1@, r2@, c@, auth_id@),
            r is Err ==> *final(self) == *old(self),
    {
        if !self.user_info.contains_key(user_name) {
            return Err(AuthError::NotFound);
        }
        if self.challenges.contains_key(auth_id) {
            return Err(AuthError::IdCollision);
        }
        let session = ChallengeSession { user_name: user_name.clone(), r1, r2, c };
        self.challenges.insert(auth_id.clone(), session);
        assert(self.sessions().dom() =~= old(self).sessions().dom().insert(auth_id@));
        Ok(())
    }

    /// Issues a challenge to `user_name` for the commitments `r1`, `r2`: draws
    /// `c` uniformly below `q` and a fresh identifier, records the pending
    /// challenge and returns `(auth_id, c)`. Fails with `NotFound` when the
    /// user is not registered, and with `IdCollision` when each of the
    /// `ID_DRAWS` identifiers drawn is already in use by a pending challenge,
    /// which cannot happen while none is pending; nothing changes then.
    pub fn create_authentication_challenge(
        &mut self,
        user_name: &str,
        r1: BigNum,
        r2: BigNum,
    ) -> (r: Result<(String, BigNum), AuthError>)
        requires
            old(self).wf(),
        ensures
            final(self).wf(),
            r == Err::<(String, BigNum), AuthError>(AuthError::NotFound) <==> !old(
                self,
            ).users().contains_key(user_name@),
            r is Ok || r == Err::<(String, BigNum), AuthError>(AuthError::NotFound) || r == Err::<
                (String, BigNum),
                AuthError,
            >(AuthError::IdCollision),
            r == Err::<(String, BigNum), AuthError>(AuthError::IdCollision) ==> old(
                self,
            ).users().contains_key(user_name@) && exists|id: Seq<char>|
                #[trigger] old(self).sessions().contains_key(id),
            old(self).users().contains_key(user_name@) && old(self).sessions() == Map::<
                Seq<char>,
                ChallengeSession,
            >::empty() ==> r is Ok,
            r is Err ==> *final(self) == *old(self),
            r matches Ok((auth_id, c)) ==> {
                &&& issued(*old(self), *final(self), user_name@, r1@, r2@, c@, auth_id@)
                &&& c@ < old(self).group().q
                &&& auth_id@.len() == TOKEN_LENGTH
                &&& is_token_text(auth_id@)
            },
    {
        let name = user_name.to_owned();
        if !self.user_info.contains_key(&name) {
            return Err(AuthError::NotFound);
        }
        let c = ZKP::generate_random_number_below(&self.zkp.q);
        let mut draws: usize = 1;
        let mut auth_id = ZKP::generate_random_string(TOKEN_LENGTH);
        while draws < ID_DRAWS && self.challenges.contains_key(&auth_id)
            invariant
                self.challenges.wf(),
                auth_id@.len() == TOKEN_LENGTH,
                is_token_text(auth_id@),
            decreases ID_DRAWS - draws,
        {
            auth_id = ZKP::generate_random_string(TOKEN_LENGTH);
            draws = draws + 1;
        }
        let reply = c.copy_value();
        let ghost drawn = auth_id@;
        match self.open_challenge(&name, r1, r2, c, &auth_id) {
            Ok(()) => Ok((auth_id, reply)),
            Err(e) => {
                assert(old(self).sessions().contains_key(drawn));
                Err(e)
            },
        }
    }

    /// Checks the response `s` to the pending challenge `auth_id`, which is
    /// used up either way. On success returns a fresh session identifier;
    /// fails with `NotFound` when no challenge is pending under `auth_id`
    /// and with `InvalidProof` when the verification equation does not hold.
    pub fn verify_authentication(&mut self, auth_id: &str, s: BigNum) -> (r: Result<
        String,
        AuthError,
    >)
        requires
            old(self).wf(),
        ensures
            final(self).wf(),
            final(self).users() == old(self).users(),
            final(self).group() == old(self).group(),
            final(self).sessions() == old(self).sessions().remove(auth_id@),
            r == Err::<String, AuthError>(AuthError::NotFound) <==> !old(
                self,
            ).sessions().contains_key(auth_id@),
            r == Err::<String, AuthError>(AuthError::InvalidProof) <==> old(
                self,
            ).sessions().contains_key(auth_id@) && !response_accepted(*old(self), auth_id@, s@),
            r is Ok <==> old(self).sessions().contains_key(auth_id@) && response_accepted(
                *old(self),
                auth_id@,
                s@,
            ),
            r matches Ok(session_id) ==> session_id@.len() == TOKEN_LENGTH && is_token_text(
                session_id@,
            ),
    {
        let key = auth_id.to_owned();
        let session = match self.challenges.remove(&key) {
            Some(session) => session,
            None => return Err(AuthError::NotFound),
        };
        let user = match self.user_info.get(&session.user_name) {
            Some(user) => user,
            None => return Err(AuthError::NotFound),
        };
        let verified = self.zkp.verify(&session.r1, &session.r2, &user.y1, &user.y2, &session.c, &s);
        if verified {
            Ok(ZKP::generate_random_string(TOKEN_LENGTH))
        } else {
            Err(AuthError::InvalidProof)
        }
    }
}

} // verus!
