//! What the protocol guarantees, proved over the specifications of the math
//! and of the verifier's state machine.
use crate::auth::{issued, response_accepted, AuthImpl};
use crate::zkp::{accepts, commit, generators_close, response, GroupValues};
use vstd::arithmetic::div_mod::{
    lemma_fundamental_div_mod, lemma_mod_multiples_vanish, lemma_mul_mod_noop_left,
    lemma_mul_mod_noop_right, lemma_small_mod, lemma_sub_mod_noop,
};
use vstd::arithmetic::power::{lemma1_pow, lemma_pow_adds, lemma_pow_mod_noop, lemma_pow_multiplies, pow};
use vstd::prelude::*;

verus! {

/// `g` has multiplicative order exactly `q` modulo `p`.
pub open spec fn has_order(g: nat, q: nat, p: nat) -> bool {
    &&& pow(g as int, q) % (p as int) == 1
    &&& forall|t: nat| 0 < t < q ==> #[trigger] pow(g as int, t) % (p as int) != 1
}

/// Valid group parameters: a modulus above one, and two generators of order
/// `q` modulo `p`.
pub open spec fn valid_group(g: GroupValues) -> bool {
    &&& g.p > 1
    &&& g.q > 0
    &&& has_order(g.alpha, g.q, g.p)
    &&& has_order(g.beta, g.q, g.p)
}

/// Exponents that agree modulo `q` give the same power when `h^q = 1`.
proof fn lemma_pow_reduce(h: nat, q: nat, p: nat, a: nat)
    requires
        p > 1,
        q > 0,
        pow(h as int, q) % (p as int) == 1,
    ensures
        pow(h as int, a) % (p as int) == pow(h as int, a % q) % (p as int),
{
    let pi = p as int;
    let m = (a / q) as nat;
    let r = a % q;
    lemma_fundamental_div_mod(a as int, q as int);
    assert(q * m >= 0) by (nonlinear_arith)
        requires
            q > 0,
            m >= 0,
    ;
    let qm = (q * m) as nat;
    assert(a == qm + r);
    lemma_pow_adds(h as int, qm, r);
    lemma_pow_multiplies(h as int, q, m);
    lemma_pow_mod_noop(pow(h as int, q), m, pi);
    lemma1_pow(m);
    lemma_small_mod(1, p);
    let big = pow(h as int, qm);
    let small = pow(h as int, r);
    assert(big % pi == 1);
    lemma_mul_mod_noop_left(big, small, pi);
    assert((1 * small) == small);
}

/// With `h` of order `q`, `h^a = h^b (mod p)` forces `a = b (mod q)`.
pub proof fn lemma_order_cancels(h: nat, q: nat, p: nat, a: nat, b: nat)
    requires
        p > 1,
        q > 0,
        has_order(h, q, p),
        pow(h as int, a) % (p as int) == pow(h as int, b) % (p as int),
    ensures
        a % q == b % q,
{
    lemma_pow_reduce(h, q, p, a);
    lemma_pow_reduce(h, q, p, b);
    let (lo, hi) = if a % q < b % q {
        (a % q, b % q)
    } else {
        (b % q, a % q)
    };
    if lo < hi {
        lemma_order_gap(h, q, p, lo, hi);
        let t = (lo + q - hi) as nat;
        assert(0 < t < q);
        assert(pow(h as int, t) % (p as int) != 1);
    }
}

/// When `h^a = h^b (mod p)` with `a < b <= q` and `h^q = 1`, then also
/// `h^(a + q - b) = 1`.
proof fn lemma_order_gap(h: nat, q: nat, p: nat, a: nat, b: nat)
    requires
        p > 1,
        a < b <= q,
        pow(h as int, q) % (p as int) == 1,
        pow(h as int, a) % (p as int) == pow(h as int, b) % (p as int),
    ensures
        pow(h as int, (a + q - b) as nat) % (p as int) == 1,
{
    let pi = p as int;
    let rest = (q - b) as nat;
    let t = (a + rest) as nat;
    lemma_pow_adds(h as int, a, rest);
    lemma_pow_adds(h as int, b, rest);
    lemma_mul_mod_noop_left(pow(h as int, a), pow(h as int, rest), pi);
    lemma_mul_mod_noop_left(pow(h as int, b), pow(h as int, rest), pi);
    assert(b + rest == q);
}

/// `h^s * (h^x mod p)^c = h^(s + x*c) (mod p)`.
proof fn lemma_combined_power(h: nat, p: nat, s: nat, x: nat, c: nat)
    requires
        p > 1,
    ensures
        (pow(h as int, s) * pow(commit(h, x, p) as int, c)) % (p as int) == pow(
            h as int,
            s + x * c,
        ) % (p as int),
{
    let pi = p as int;
    let y = pow(h as int, x);
    assert(x * c >= 0) by (nonlinear_arith);
    let xc = (x * c) as nat;
    lemma_pow_mod_noop(y, c, pi);
    lemma_pow_multiplies(h as int, x, c);
    lemma_mul_mod_noop_right(pow(h as int, s), pow(y % pi, c), pi);
    lemma_mul_mod_noop_right(pow(h as int, s), pow(y, c), pi);
    lemma_pow_adds(h as int, s, xc);
}

/// Equal sums with a common term have the other terms equal modulo `q`.
proof fn lemma_cancel_addend(a: int, b: int, b2: int, q: int)
    requires
        q > 0,
        (a + b) % q == (a + b2) % q,
    ensures
        b % q == b2 % q,
{
    lemma_sub_mod_noop(a + b, a, q);
    lemma_sub_mod_noop(a + b2, a, q);
    assert(a + b - a == b);
    assert(a + b2 - a == b2);
}

/// Completeness: the honest response for secret `x`, ephemeral secret `k`
/// and any challenge `c` satisfies the verification equation, in any group
/// whose generators satisfy `alpha^q = beta^q = 1 (mod p)` (which
/// `ZKP::check_generators` tests).
pub proof fn lemma_completeness(g: GroupValues, x: nat, k: nat, c: nat)
    requires
        generators_close(g),
    ensures
        accepts(
            g,
            commit(g.alpha, k, g.p),
            commit(g.beta, k, g.p),
            commit(g.alpha, x, g.p),
            commit(g.beta, x, g.p),
            c,
            response(k, c, x, g.q),
        ),
{
    let s = response(k, c, x, g.q) as int;
    let q = g.q as int;
    let cx = (c * x) as int;
    let k = k as int;
    assert(x * c == c * x) by (nonlinear_arith);
    let m = (k - cx) / q;
    lemma_fundamental_div_mod(k - cx, q);
    assert(q * (-m) == -(q * m)) by (nonlinear_arith);
    assert(s + cx == q * (-m) + k);
    lemma_mod_multiples_vanish(-m, k, q);
    assert((s + cx) % q == k % q);
    lemma_combined_power(g.alpha, g.p, s as nat, x, c);
    lemma_combined_power(g.beta, g.p, s as nat, x, c);
    lemma_pow_reduce(g.alpha, g.q, g.p, (s + x * c) as nat);
    lemma_pow_reduce(g.alpha, g.q, g.p, k as nat);
    lemma_pow_reduce(g.beta, g.q, g.p, (s + x * c) as nat);
    lemma_pow_reduce(g.beta, g.q, g.p, k as nat);
}

/// Soundness for in-range responses: against the honest commitments, no
/// response in `[0, q)` other than the honest one is accepted, whatever the
/// challenge.
pub proof fn lemma_only_honest_response_accepted(
    g: GroupValues,
    x: nat,
    k: nat,
    c: nat,
    s: nat,
)
    requires
        valid_group(g),
        s < g.q,
        s != response(k, c, x, g.q),
    ensures
        !accepts(
            g,
            commit(g.alpha, k, g.p),
            commit(g.beta, k, g.p),
            commit(g.alpha, x, g.p),
            commit(g.beta, x, g.p),
            c,
            s,
        ),
{
    if accepts(
        g,
        commit(g.alpha, k, g.p),
        commit(g.beta, k, g.p),
        commit(g.alpha, x, g.p),
        commit(g.beta, x, g.p),
        c,
        s,
    ) {
        lemma_combined_power(g.alpha, g.p, s, x, c);
        lemma_order_cancels(g.alpha, g.q, g.p, s + x * c, k);
        let q = g.q as int;
        let d = (s + x * c) as int;
        let k = k as int;
        lemma_fundamental_div_mod(k, q);
        lemma_fundamental_div_mod(d, q);
        assert(x * c == c * x) by (nonlinear_arith);
        assert(d % q == k % q);
        assert(q * (k / q - d / q) == q * (k / q) - q * (d / q)) by (nonlinear_arith);
        assert(k - c * x == q * (k / q - d / q) + s);
        lemma_mod_multiples_vanish(k / q - d / q, s as int, q);
        lemma_small_mod(s, g.q);
    }
}

/// Changing either commitment of an accepted proof gets it rejected.
pub proof fn lemma_tampered_commitment_rejected(
    g: GroupValues,
    r1: nat,
    r2: nat,
    y1: nat,
    y2: nat,
    c: nat,
    s: nat,
    other: nat,
)
    requires
        accepts(g, r1, r2, y1, y2, c, s),
    ensures
        other != r1 ==> !accepts(g, other, r2, y1, y2, c, s),
        other != r2 ==> !accepts(g, r1, other, y1, y2, c, s),
{
}

/// Changing the response of an accepted proof to another value in `[0, q)`
/// gets it rejected, for commitments `y1 = alpha^x`, `y2 = beta^x`.
pub proof fn lemma_tampered_response_rejected(
    g: GroupValues,
    x: nat,
    r1: nat,
    r2: nat,
    c: nat,
    s: nat,
    other: nat,
)
    requires
        valid_group(g),
        accepts(g, r1, r2, commit(g.alpha, x, g.p), commit(g.beta, x, g.p), c, s),
        s < g.q,
        other < g.q,
        other != s,
    ensures
        !accepts(g, r1, r2, commit(g.alpha, x, g.p), commit(g.beta, x, g.p), c, other),
{
    if accepts(g, r1, r2, commit(g.alpha, x, g.p), commit(g.beta, x, g.p), c, other) {
        lemma_combined_power(g.alpha, g.p, s, x, c);
        lemma_combined_power(g.alpha, g.p, other, x, c);
        lemma_order_cancels(g.alpha, g.q, g.p, s + x * c, other + x * c);
        lemma_cancel_addend((x * c) as int, s as int, other as int, g.q as int);
        lemma_small_mod(s, g.q);
        lemma_small_mod(other, g.q);
    }
}

/// Changing the challenge of an accepted proof gets it rejected, for
/// commitments `y1 = alpha^x`, `y2 = beta^x`, whenever the change moves
/// `x*c` modulo `q` (with `q` prime: whenever `x` is not a multiple of `q`
/// and the challenges differ modulo `q`).
pub proof fn lemma_tampered_challenge_rejected(
    g: GroupValues,
    x: nat,
    r1: nat,
    r2: nat,
    c: nat,
    s: nat,
    other: nat,
)
    requires
        valid_group(g),
        accepts(g, r1, r2, commit(g.alpha, x, g.p), commit(g.beta, x, g.p), c, s),
        (x * c) % g.q != (x * other) % g.q,
    ensures
        !accepts(g, r1, r2, commit(g.alpha, x, g.p), commit(g.beta, x, g.p), other, s),
{
    if accepts(g, r1, r2, commit(g.alpha, x, g.p), commit(g.beta, x, g.p), other, s) {
        lemma_combined_power(g.alpha, g.p, s, x, c);
        lemma_combined_power(g.alpha, g.p, s, x, other);
        lemma_order_cancels(g.alpha, g.q, g.p, s + x * c, s + x * other);
        lemma_cancel_addend(s as int, (x * c) as int, (x * other) as int, g.q as int);
    }
}

/// Isolation: two challenges issued one after the other get distinct
/// identifiers, and the second leaves the first one's pending state as it
/// was, so each can be verified on its own.
pub proof fn lemma_challenges_isolated(
    s0: AuthImpl,
    s1: AuthImpl,
    s2: AuthImpl,
    user1: Seq<char>,
    user2: Seq<char>,
    r1a: nat,
    r2a: nat,
    ca: nat,
    ida: Seq<char>,
    r1b: nat,
    r2b: nat,
    cb: nat,
    idb: Seq<char>,
    s: nat,
)
    requires
        issued(s0, s1, user1, r1a, r2a, ca, ida),
        issued(s1, s2, user2, r1b, r2b, cb, idb),
    ensures
        ida != idb,
        s2.sessions().contains_key(ida),
        s2.sessions().contains_key(idb),
        s2.sessions()[ida] == s1.sessions()[ida],
        s2.sessions()[ida].user_name@ == user1,
        s2.sessions()[idb].user_name@ == user2,
        response_accepted(s2, ida, s) == response_accepted(s1, ida, s),
{
    assert(s1.sessions().dom().contains(ida));
    assert(s2.sessions().dom().contains(idb));
    assert(s1.sessions().contains_key(ida));
}

/// An honest prover's login succeeds: when the pending challenge's
/// commitments are `alpha^k`, `beta^k` and the user registered `alpha^x`,
/// `beta^x`, the response `(k - c*x) mod q` is accepted.
pub proof fn lemma_honest_login_accepted(state: AuthImpl, auth_id: Seq<char>, x: nat, k: nat)
    requires
        generators_close(state.group()),
        state.sessions().contains_key(auth_id),
        state.users().contains_key(state.sessions()[auth_id].user_name@),
        state.users()[state.sessions()[auth_id].user_name@].y1@ == commit(
            state.group().alpha,
            x,
            state.group().p,
        ),
        state.users()[state.sessions()[auth_id].user_name@].y2@ == commit(
            state.group().beta,
            x,
            state.group().p,
        ),
        state.sessions()[auth_id].r1@ == commit(state.group().alpha, k, state.group().p),
        state.sessions()[auth_id].r2@ == commit(state.group().beta, k, state.group().p),
    ensures
        response_accepted(
            state,
            auth_id,
            response(k, state.sessions()[auth_id].c@, x, state.group().q),
        ),
{
    lemma_completeness(state.group(), x, k, state.sessions()[auth_id].c@);
}

} // verus!
