//! The credential store: issues and validates short-lived session tokens
//! against a long-lived shared key.
//!
//! Issuance requires the presented key to equal the configured one and
//! writes a token with expiry `now + TOKEN_WINDOW_SECS`.  Validation is
//! an idempotent check: it accepts a known token at any instant strictly
//! before its expiry and rejects it at or after that instant, and never
//! consumes or extends the token.

use vstd::prelude::*;

use crate::error::AppError;

verus! {

/// Seconds an issued token stays valid.
pub const TOKEN_WINDOW_SECS: u64 = 10;

/// The single configured long-lived key, compared for equality.
#[derive(Clone, Copy, Debug, PartialEq, Eq, Structural)]
pub struct ApiKey(pub u128);

/// An opaque short-lived session token.
#[derive(Clone, Copy, Debug, PartialEq, Eq, Structural)]
pub struct AuthToken(pub u128);

/// The absolute instant (seconds since the Unix epoch) at which a token
/// stops being accepted.
#[derive(Clone, Copy, Debug, PartialEq, Eq, Structural)]
pub struct ExpiryTime(pub u64);

/// Relies on std's `SystemTime::now`: seconds of the system clock since
/// the Unix epoch, 0 when the clock reads earlier than the epoch.  The
/// result depends on the machine's clock, so nothing is promised of it.
#[verifier::external_body]
fn now_secs() -> u64 {
    match std::time::SystemTime::now().duration_since(std::time::UNIX_EPOCH) {
        Ok(d) => d.as_secs(),
        Err(_) => 0,
    }
}

/// Relies on `uuid::Uuid::new_v4`: a freshly drawn random 128-bit
/// identifier whose four version bits hold 4 and whose two variant bits
/// hold 2.  The value is random, so nothing more is promised of it.
#[verifier::external_body]
pub(crate) fn fresh_id() -> (r: u128)
    ensures
        (r >> 76) & 0xf == 4,
        (r >> 62) & 0x3 == 2,
{
    uuid::Uuid::new_v4().as_u128()
}

/// The identifier that `uuid`'s parser reads from a string of
/// hexadecimal digits with optional hyphens, when it reads one.
pub uninterp spec fn parsed_uuid(s: Seq<char>) -> Option<u128>;

/// Relies on `uuid::Uuid::parse_str`: the result is a function of the
/// input characters alone.
#[verifier::external_body]
fn parse_uuid(s: &str) -> (r: Option<u128>)
    ensures
        r == parsed_uuid(s@),
{
    match uuid::Uuid::parse_str(s) {
        Ok(u) => Some(u.as_u128()),
        Err(_) => None,
    }
}

/// The expiry instant written for a token issued at `now`, saturating
/// at the top of the clock's range.
pub open spec fn expiry_of(now: u64) -> u64 {
    if now + TOKEN_WINDOW_SECS <= u64::MAX {
        (now + TOKEN_WINDOW_SECS) as u64
    } else {
        u64::MAX
    }
}

impl ApiKey {
    /// Read a key from its textual form.
    pub fn try_from(value: String) -> (r: Result<ApiKey, AppError>)
        ensures
            parsed_uuid(value@) matches Some(u) ==> r == Ok::<ApiKey, AppError>(ApiKey(u)),
            parsed_uuid(value@) is None ==> (r matches Err(e) && e matches AppError::Error(m)
                && m@ == "invalid API key"@),
    {
        match parse_uuid(value.as_str()) {
            Some(u) => Ok(ApiKey(u)),
            None => Err(AppError::Error(String::from_str("invalid API key"))),
        }
    }
}

impl AuthToken {
    /// Mint a fresh random token.
    pub fn new() -> (r: AuthToken)
        ensures
            (r.0 >> 76) & 0xf == 4,
    {
        AuthToken(fresh_id())
    }
}

impl ExpiryTime {
    /// The expiry of a token issued at instant `now`.
    pub fn issued_at(now: u64) -> (r: ExpiryTime)
        ensures
            r.0 == expiry_of(now),
    {
        if now <= u64::MAX - TOKEN_WINDOW_SECS {
            ExpiryTime(now + TOKEN_WINDOW_SECS)
        } else {
            ExpiryTime(u64::MAX)
        }
    }

    /// The expiry of a token issued now, read from the system clock.
    /// Nothing can be promised of the clock itself; see
    /// [`Self::issued_at`] for the exact relation to the issue instant.
    pub fn new() -> (r: ExpiryTime)
        ensures
            r.0 >= TOKEN_WINDOW_SECS,
    {
        ExpiryTime::issued_at(now_secs())
    }

    /// Whether the token this expiry belongs to is no longer accepted at
    /// instant `now`.  The expiry instant itself is already outside the
    /// window: a token issued at T is accepted strictly before
    /// T + [`TOKEN_WINDOW_SECS`] and rejected from that instant on.
    pub fn is_expired_at(&self, now: u64) -> (r: bool)
        ensures
            r == (self.0 <= now),
    {
        self.0 <= now
    }

    /// Whether the token this expiry belongs to is no longer accepted at
    /// the clock's current instant; see [`Self::is_expired_at`].
    pub fn is_expired(&self) -> bool {
        self.is_expired_at(now_secs())
    }
}

/// One issued token and its expiry instant.
#[derive(Clone, Copy, Debug, PartialEq, Eq, Structural)]
pub struct TokenEntry {
    pub token: u128,
    pub expiry: u64,
}

impl View for TokenEntry {
    type V = (u128, u64);

    open spec fn view(&self) -> (u128, u64) {
        (self.token, self.expiry)
    }
}

impl DeepView for TokenEntry {
    type V = (u128, u64);

    open spec fn deep_view(&self) -> (u128, u64) {
        self.view()
    }
}

/// No two positions hold the same token value.
pub open spec fn tokens_unique(v: Seq<(u128, u64)>) -> bool {
    forall|i: int, j: int|
        0 <= i < v.len() && 0 <= j < v.len() && i != j ==> (#[trigger] v[i]).0 != (#[trigger] v[j]).0
}

/// Some position holds `token` with an expiry later than `now`:
/// the condition under which validation accepts.
pub open spec fn token_valid_at(v: Seq<(u128, u64)>, token: u128, now: u64) -> bool {
    exists|i: int| 0 <= i < v.len() && (#[trigger] v[i]).0 == token && now < v[i].1
}

/// The store contents with every entry for `token` removed, other
/// entries kept in order.
pub open spec fn without_token(v: Seq<(u128, u64)>, token: u128) -> Seq<(u128, u64)>
    decreases v.len(),
{
    if v.len() == 0 {
        v
    } else {
        let rest = without_token(v.drop_last(), token);
        if v.last().0 == token {
            rest
        } else {
            rest.push(v.last())
        }
    }
}

/// Every element of `without_token(v, token)` is an element of `v` for
/// a different token, and everything else of `v` is kept.
pub proof fn lemma_without_token_membership(v: Seq<(u128, u64)>, token: u128)
    ensures
        forall|k: int|
            0 <= k < without_token(v, token).len() ==> (#[trigger] without_token(v, token)[k]).0
                != token && v.contains(without_token(v, token)[k]),
        forall|k: int|
            0 <= k < v.len() && (#[trigger] v[k]).0 != token ==> without_token(v, token).contains(
                v[k],
            ),
        without_token(v, token).len() <= v.len(),
    decreases v.len(),
{
    if v.len() > 0 {
        lemma_without_token_membership(v.drop_last(), token);
        let rest = without_token(v.drop_last(), token);
        assert forall|k: int|
            0 <= k < without_token(v, token).len() implies (#[trigger] without_token(v, token)[k]).0
            != token && v.contains(without_token(v, token)[k]) by {
            if k < rest.len() {
                assert(rest[k].0 != token && v.drop_last().contains(rest[k]));
                let j = choose|j: int|
                    0 <= j < v.drop_last().len() && v.drop_last()[j] == rest[k];
                assert(v[j] == rest[k]);
            } else {
                assert(without_token(v, token)[k] == v.last());
                assert(v[v.len() - 1] == v.last());
            }
        }
        assert forall|k: int|
            0 <= k < v.len() && (#[trigger] v[k]).0 != token implies without_token(
            v,
            token,
        ).contains(v[k]) by {
            if k < v.len() - 1 {
                assert(v.drop_last()[k] == v[k]);
                assert(rest.contains(v[k]));
                let j = choose|j: int| 0 <= j < rest.len() && rest[j] == v[k];
                if v.last().0 != token {
                    assert(rest.push(v.last())[j] == v[k]);
                }
            } else {
                assert(v.last() == v[k]);
                assert(without_token(v, token).last() == v.last());
            }
        }
    }
}

/// Removing a token keeps the uniqueness invariant and truly removes it.
pub proof fn lemma_without_token_preserves_unique(v: Seq<(u128, u64)>, token: u128)
    requires
        tokens_unique(v),
    ensures
        tokens_unique(without_token(v, token)),
        forall|k: int|
            0 <= k < without_token(v, token).len() ==> (#[trigger] without_token(v, token)[k]).0
                != token,
    decreases v.len(),
{
    lemma_without_token_membership(v, token);
    if v.len() > 0 {
        assert forall|i: int, j: int|
            0 <= i < v.drop_last().len() && 0 <= j < v.drop_last().len() && i != j implies (
        #[trigger] v.drop_last()[i]).0 != (#[trigger] v.drop_last()[j]).0 by {
            assert(v.drop_last()[i] == v[i] && v.drop_last()[j] == v[j]);
        }
        lemma_without_token_preserves_unique(v.drop_last(), token);
        let rest = without_token(v.drop_last(), token);
        if v.last().0 != token {
            lemma_without_token_membership(v.drop_last(), token);
            let out = rest.push(v.last());
            assert forall|i: int, j: int|
                0 <= i < out.len() && 0 <= j < out.len() && i != j implies (#[trigger] out[i]).0
                != (#[trigger] out[j]).0 by {
                if i < rest.len() && j < rest.len() {
                    assert(out[i] == rest[i] && out[j] == rest[j]);
                } else if i < rest.len() {
                    assert(out[j] == v.last() && out[i] == rest[i]);
                    assert(v.drop_last().contains(rest[i]));
                    let k = choose|k: int|
                        0 <= k < v.drop_last().len() && v.drop_last()[k] == rest[i];
                    assert(v[k] == rest[i] && v.last() == v[v.len() - 1]);
                } else {
                    assert(out[i] == v.last() && out[j] == rest[j]);
                    assert(v.drop_last().contains(rest[j]));
                    let k = choose|k: int|
                        0 <= k < v.drop_last().len() && v.drop_last()[k] == rest[j];
                    assert(v[k] == rest[j] && v.last() == v[v.len() - 1]);
                }
            }
        }
    }
}

/// The process-wide store of issued tokens, guarded by the shared key.
pub struct CredentialStore {
    api_key: ApiKey,
    tokens: Vec<TokenEntry>,
}

impl View for CredentialStore {
    type V = Seq<(u128, u64)>;

    closed spec fn view(&self) -> Seq<(u128, u64)> {
        self.tokens.deep_view()
    }
}

impl CredentialStore {
    /// The configured long-lived key.
    pub closed spec fn key(&self) -> u128 {
        self.api_key.0
    }

    /// Token uniqueness invariant.
    pub open spec fn wf(&self) -> bool {
        tokens_unique(self@)
    }

    /// A store with no issued tokens, gated by `api_key`.
    pub fn new(api_key: ApiKey) -> (r: CredentialStore)
        ensures
            r.key() == api_key.0,
            r@ == Seq::<(u128, u64)>::empty(),
            r.wf(),
    {
        let r = CredentialStore { api_key, tokens: Vec::new() };
        proof {
            assert(r@ =~= Seq::<(u128, u64)>::empty());
        }
        r
    }

    /// Issue `token` at instant `now`: refused with `Unauthorized`
    /// unless the presented key equals the configured one; on success
    /// the token is stored with expiry `now + TOKEN_WINDOW_SECS` and
    /// returned to the caller.  Nothing is ever evicted.
    pub fn issue(&mut self, presented: &ApiKey, token: AuthToken, now: u64) -> (r: Result<
        ExpiryTime,
        AppError,
    >)
        requires
            old(self).wf(),
        ensures
            final(self).wf(),
            final(self).key() == old(self).key(),
            (r is Ok) == (presented.0 == old(self).key()),
            r matches Ok(exp) ==> exp.0 == expiry_of(now) && final(self)@ == without_token(
                old(self)@,
                token.0,
            ).push((token.0, expiry_of(now))),
            r matches Err(e) ==> e is Unauthorized && final(self)@ == old(self)@,
    {
        if presented.0 != self.api_key.0 {
            return Err(AppError::Unauthorized);
        }
        let expiry = ExpiryTime::issued_at(now);
        self.remove_token(token.0);
        proof {
            lemma_without_token_preserves_unique(old(self)@, token.0);
        }
        let ghost cleared = self@;
        self.tokens.push(TokenEntry { token: token.0, expiry: expiry.0 });
        proof {
            assert(self@ =~= cleared.push((token.0, expiry_of(now))));
            let v = self@;
            assert forall|p: int, q: int|
                0 <= p < v.len() && 0 <= q < v.len() && p != q implies (#[trigger] v[p]).0 != (
            #[trigger] v[q]).0 by {
                if p < cleared.len() && q < cleared.len() {
                    assert(v[p] == cleared[p] && v[q] == cleared[q]);
                } else if p < cleared.len() {
                    assert(v[q] == (token.0, expiry_of(now)) && v[p] == cleared[p]);
                } else if q < cleared.len() {
                    assert(v[p] == (token.0, expiry_of(now)) && v[q] == cleared[q]);
                }
            }
        }
        Ok(expiry)
    }

    /// Mint a fresh token and issue it at instant `now`.
    pub fn issue_fresh(&mut self, presented: &ApiKey, now: u64) -> (r: Result<
        (AuthToken, ExpiryTime),
        AppError,
    >)
        requires
            old(self).wf(),
        ensures
            final(self).wf(),
            final(self).key() == old(self).key(),
            (r is Ok) == (presented.0 == old(self).key()),
            r matches Ok((t, exp)) ==> exp.0 == expiry_of(now) && final(self)@ == without_token(
                old(self)@,
                t.0,
            ).push((t.0, expiry_of(now))),
            r matches Err(e) ==> e is Unauthorized && final(self)@ == old(self)@,
    {
        let token = AuthToken::new();
        match self.issue(presented, token, now) {
            Ok(exp) => Ok((token, exp)),
            Err(e) => Err(e),
        }
    }

    /// Accept exactly the tokens the store knows whose expiry lies
    /// strictly past `now`; reject everything else with `Unauthorized`.
    /// The check neither consumes nor extends the token.
    pub fn validate(&self, token: &AuthToken, now: u64) -> (r: Result<(), AppError>)
        ensures
            (r is Ok) == token_valid_at(self@, token.0, now),
            r matches Err(e) ==> e is Unauthorized,
    {
        let mut i: usize = 0;
        while i < self.tokens.len()
            invariant
                i <= self.tokens.len(),
                forall|j: int| 0 <= j < i ==> !((#[trigger] self@[j]).0 == token.0 && now < self@[j].1),
            decreases self.tokens.len() - i,
        {
            let e = &self.tokens[i];
            if e.token == token.0 {
                let exp = ExpiryTime(e.expiry);
                if !exp.is_expired_at(now) {
                    proof {
                        assert((self@[i as int]).0 == token.0 && now < self@[i as int].1);
                    }
                    return Ok(());
                }
            }
            i = i + 1;
        }
        Err(AppError::Unauthorized)
    }

    /// Drop every entry for `token.0`, keeping the rest in order.
    fn remove_token(&mut self, token: u128)
        ensures
            final(self)@ == without_token(old(self)@, token),
            final(self).key() == old(self).key(),
    {
        let mut out: Vec<TokenEntry> = Vec::new();
        let mut i: usize = 0;
        while i < self.tokens.len()
            invariant
                i <= self.tokens.len(),
                *self == *old(self),
                out.deep_view() == without_token(self@.subrange(0, i as int), token),
            decreases self.tokens.len() - i,
        {
            proof {
                assert(self@.subrange(0, i as int + 1).drop_last() =~= self@.subrange(
                    0,
                    i as int,
                ));
                assert(self@.subrange(0, i as int + 1).last() == self@[i as int]);
            }
            let e = self.tokens[i];
            if e.token != token {
                out.push(e);
            }
            i = i + 1;
        }
        proof {
            assert(self@.subrange(0, self@.len() as int) =~= self@);
        }
        self.tokens = out;
    }
}

/// Credential window law: right after a token is issued at instant
/// `issued`, validation accepts it at any instant strictly before
/// `issued + TOKEN_WINDOW_SECS` and rejects it at or from that instant.
pub proof fn lemma_token_window(v: Seq<(u128, u64)>, token: u128, issued: u64, check: u64)
    requires
        issued + TOKEN_WINDOW_SECS <= u64::MAX,
        tokens_unique(v),
        exists|i: int| 0 <= i < v.len() && #[trigger] v[i] == (token, expiry_of(issued)),
    ensures
        token_valid_at(v, token, check) <==> check < issued + TOKEN_WINDOW_SECS,
{
    let i = choose|i: int| 0 <= i < v.len() && #[trigger] v[i] == (token, expiry_of(issued));
    if token_valid_at(v, token, check) {
        let j = choose|j: int| 0 <= j < v.len() && (#[trigger] v[j]).0 == token && check < v[j].1;
        assert(i == j);
    }
    if check < issued + TOKEN_WINDOW_SECS {
        assert(v[i].0 == token && check < v[i].1);
    }
}

} // verus!
