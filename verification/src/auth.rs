//! Who may use the server: passwords, tokens, and the slowing down of failed logins.

use crate::number::lower;
use crate::params::QueryParams;
use crate::settings::Settings;
use crate::text;
use crate::text::after_prefix;
use vstd::arithmetic::power2::pow2;
use vstd::prelude::*;
use vstd::utf8::encode_utf8;

verus! {

/// The MD5 digest of these bytes.
pub uninterp spec fn md5(data: Seq<u8>) -> Seq<u8>;

/// `md5::Md5::digest` is the MD5 digest of some bytes, which is sixteen bytes long.
#[verifier::external_body]
fn md5_digest(data: &[u8]) -> (r: Vec<u8>)
    ensures
        r@ == md5(data@),
        r@.len() == 16,
{
    <md5::Md5 as md5::Digest>::digest(data).to_vec()
}

/// The digit of a number below sixteen.
pub open spec fn hex_digit(n: int) -> char {
    if n < 10 {
        ('0' as int + n) as char
    } else {
        ('a' as int + n - 10) as char
    }
}

/// Bytes as digits, two for each.
pub open spec fn hex(bytes: Seq<u8>) -> Seq<char>
    decreases bytes.len(),
{
    if bytes.len() == 0 {
        Seq::empty()
    } else {
        hex(bytes.drop_last()).push(hex_digit(bytes.last() as int / 16)).push(
            hex_digit(bytes.last() as int % 16),
        )
    }
}

/// The digit of a number below sixteen.
fn hex_char(n: u8) -> (r: char)
    requires
        n < 16,
    ensures
        r == hex_digit(n as int),
{
    if n < 10 {
        (48u8 + n) as char
    } else {
        (87u8 + n) as char
    }
}

/// Writes bytes as digits.
pub fn hex_text(bytes: &Vec<u8>) -> (r: String)
    ensures
        r@ == hex(bytes@),
{
    let mut out = String::new();
    let mut i: usize = 0;
    assert(bytes@.take(0) =~= Seq::empty());
    assert(out@ =~= hex(bytes@.take(0)));
    while i < bytes.len()
        invariant
            i <= bytes@.len(),
            out@ == hex(bytes@.take(i as int)),
        decreases bytes@.len() - i,
    {
        assert(bytes@.take(i + 1).drop_last() =~= bytes@.take(i as int));
        out.push(hex_char(bytes[i] / 16));
        out.push(hex_char(bytes[i] % 16));
        i += 1;
    }
    assert(bytes@.take(bytes@.len() as int) =~= bytes@);
    out
}

/// The MD5 digest of some bytes as digits.
pub fn md5_hex(data: &[u8]) -> (r: String)
    ensures
        r@ == hex(md5(data@)),
{
    hex_text(&md5_digest(data))
}

proof fn lemma_diff(d: u8, x: u8, y: u8)
    ensures
        (d | (x ^ y)) == 0 <==> d == 0 && x == y,
{
    assert((d | (x ^ y)) == 0 <==> d == 0 && x == y) by (bit_vector);
}

/// Whether two texts are the same. Texts of the same length are compared to the end, whatever
/// they hold, so that the time taken does not tell how far they agree.
pub fn ct_eq(a: &str, b: &str) -> (r: bool)
    ensures
        r == (a@ == b@),
{
    let x = a.as_bytes();
    let y = b.as_bytes();
    proof {
        vstd::utf8::encode_utf8_decode_utf8(a@);
        vstd::utf8::encode_utf8_decode_utf8(b@);
    }
    if x.len() != y.len() {
        return false;
    }
    let mut diff: u8 = 0;
    let mut i: usize = 0;
    assert(x@.take(0) =~= y@.take(0));
    while i < x.len()
        invariant
            i <= x@.len(),
            x@.len() == y@.len(),
            diff == 0 <==> x@.take(i as int) == y@.take(i as int),
        decreases x@.len() - i,
    {
        proof {
            lemma_diff(diff, x@[i as int], y@[i as int]);
            let p = x@.take(i + 1);
            let q = y@.take(i + 1);
            if diff == 0 && x@[i as int] == y@[i as int] {
                assert(p =~= x@.take(i as int).push(x@[i as int]));
                assert(q =~= y@.take(i as int).push(y@[i as int]));
            } else if p == q {
                assert(p.take(i as int) =~= x@.take(i as int));
                assert(q.take(i as int) =~= y@.take(i as int));
                assert(p[i as int] == q[i as int]);
            }
        }
        diff = diff | (x[i] ^ y[i]);
        i += 1;
    }
    assert(x@.take(x@.len() as int) =~= x@);
    assert(y@.take(y@.len() as int) =~= y@);
    diff == 0
}

/// A text with the letters of the alphabet in lower case.
pub open spec fn lower_text(s: Seq<char>) -> Seq<char> {
    s.map_values(|c: char| lower(c))
}

/// Writes the letters of the alphabet in lower case.
pub fn to_ascii_lowercase(s: &str) -> (r: String)
    ensures
        r@ == lower_text(s@),
{
    let v = text::chars_of(s);
    let mut out = String::new();
    let mut i: usize = 0;
    while i < v.len()
        invariant
            i <= v@.len(),
            v@ == s@,
            out@ =~= lower_text(v@.take(i as int)),
        decreases v@.len() - i,
    {
        assert(v@.take(i + 1) =~= v@.take(i as int).push(v@[i as int]));
        out.push(crate::number::lower_char(v[i]));
        i += 1;
    }
    assert(v@.take(v@.len() as int) =~= v@);
    out
}

/// What a password parameter must be for this password: the password itself, or behind `enc:`
/// the digits of its digest, in either case.
pub open spec fn password_fits(p: Seq<char>, password: Seq<char>) -> bool {
    match after_prefix(p, "enc:"@) {
        Some(digits) => lower_text(digits) == hex(md5(encode_utf8(password))),
        None => p == password,
    }
}

/// Whether a password parameter is right.
pub fn check_password(p: &str, password: &str) -> (r: bool)
    ensures
        r == password_fits(p@, password@),
        !"enc:"@.is_prefix_of(p@) ==> (r <==> p@ == password@),
        "enc:"@.is_prefix_of(p@) ==> (r <==> lower_text(p@.subrange(4, p@.len() as int)) == hex(
            md5(encode_utf8(password@)),
        )),
{
    proof {
        reveal_strlit("enc:");
        assert("enc:"@.len() == 4);
        assert(p@.len() >= 4 ==> ("enc:"@.is_prefix_of(p@) <==> p@.subrange(0, 4) =~= "enc:"@));
    }
    match text::strip_prefix(p, "enc:") {
        Some(digits) => {
            let expected = md5_hex(password.as_bytes());
            ct_eq(expected.as_str(), to_ascii_lowercase(digits).as_str())
        },
        None => ct_eq(p, password),
    }
}

/// The token for a password and a salt: the digits of the digest of the two in a row.
pub open spec fn token(password: Seq<char>, salt: Seq<char>) -> Seq<char> {
    hex(md5(encode_utf8(password + salt)))
}

/// The parameters log the user in: the name is right, and so is the token for the salt, or the
/// password where token and salt are not both there.
pub open spec fn logs_in(q: QueryParams, username: Seq<char>, password: Seq<char>) -> bool {
    match q.u {
        Some(u) => u@ == username && match (q.t, q.s) {
            (Some(t), Some(salt)) => lower_text(t@) == token(password, salt@),
            _ => match q.p {
                Some(p) => password_fits(p@, password),
                None => false,
            },
        },
        None => false,
    }
}

/// Whether the parameters log the user in. Without settings nobody is.
pub fn authenticate(settings: Option<&Settings>, q: &QueryParams) -> (r: bool)
    ensures
        r == (match settings {
            Some(s) => logs_in(*q, s.username@, s.password@),
            None => false,
        }),
        r ==> settings is Some && q.u is Some && q.u->0@ == settings->0.username@,
        settings is Some && q.u is Some && q.u->0@ == settings->0.username@ && q.t is Some && q.s
            is Some ==> (r <==> lower_text(q.t->0@) == hex(
            md5(encode_utf8(settings->0.password@ + q.s->0@)),
        )),
        settings is Some && q.u is Some && q.u->0@ == settings->0.username@ && (q.t is None || q.s
            is None) ==> (r <==> q.p is Some && password_fits(q.p->0@, settings->0.password@)),
{
    let settings = match settings {
        Some(s) => s,
        None => {
            return false;
        },
    };
    let name = match &q.u {
        Some(u) => u,
        None => {
            return false;
        },
    };
    if !text::same(name.as_str(), settings.username.as_str()) {
        return false;
    }
    match (&q.t, &q.s) {
        (Some(t), Some(salt)) => {
            let both = text::join2(settings.password.as_str(), salt.as_str());
            let expected = md5_hex(both.as_str().as_bytes());
            ct_eq(expected.as_str(), to_ascii_lowercase(t.as_str()).as_str())
        },
        _ => match &q.p {
            Some(p) => check_password(p.as_str(), settings.password.as_str()),
            None => false,
        },
    }
}

/// The request is refused for its credentials.
#[derive(Debug)]
pub struct Unauthorized;

/// The body of a request did not arrive whole.
#[derive(Debug)]
pub struct BodyReadFailed;

/// The body of a request is longer than is taken.
#[derive(Debug)]
pub struct BodyTooLarge;

/// The longest body that is taken.
pub const MAX_BODY_BYTES: u64 = 1_048_576;

/// Takes the next piece of a body, where the body then is not too long.
pub fn read_capped(out: &mut Vec<u8>, chunk: &[u8], max: u64) -> (r: Result<(), BodyTooLarge>)
    ensures
        r is Ok <==> old(out)@.len() + chunk@.len() <= max,
        final(out)@ == (if old(out)@.len() + chunk@.len() <= max {
            old(out)@ + chunk@
        } else {
            old(out)@
        }),
{
    let have: u64 = out.len() as u64;
    let more: u64 = chunk.len() as u64;
    if have > max || more > max - have {
        return Err(BodyTooLarge);
    }
    crate::flac::append_bytes(out, chunk);
    Ok(())
}

/// Where a request comes from.
#[derive(Debug, Clone, Copy, PartialEq, Eq, Structural)]
pub enum Client {
    Unknown,
    V4(u32),
    V6(u128),
}

/// How long the first failed login locks a client out, in nanoseconds.
pub const LOCKOUT_BASE: u64 = 2_000_000_000;

/// How long a client is locked out at most, in nanoseconds.
pub const LOCKOUT_MAX: u64 = 600_000_000_000;

/// How many failed logins in a row are counted.
pub const LOCKOUT_FAILURE_CAP: u32 = 12;

/// How many clients are remembered before those that are no longer locked out are forgotten.
pub const MAX_TRACKED_IPS: usize = 10_000;

/// How long the given number of failed logins in a row locks a client out: each doubles the time,
/// up to the longest. More than seventeen count as seventeen.
pub open spec fn lockout(failures: nat, base: nat, max: nat) -> nat {
    let doublings = if failures == 0 {
        0
    } else if failures > 17 {
        16
    } else {
        (failures - 1) as nat
    };
    if base * pow2(doublings) < max {
        base * pow2(doublings)
    } else {
        max
    }
}

/// How long a client is locked out.
pub fn lockout_duration(failures: u32, base: u64, max: u64) -> (r: u64)
    ensures
        r == lockout(failures as nat, base as nat, max as nat),
{
    let doublings: u32 = if failures == 0 {
        0
    } else if failures > 17 {
        16
    } else {
        failures - 1
    };
    let mut time: u128 = base as u128;
    let mut i: u32 = 0;
    proof {
        vstd::arithmetic::power2::lemma2_to64();
    }
    while i < doublings
        invariant
            i <= doublings <= 16,
            time == base * pow2(i as nat),
            pow2(i as nat) <= 0x1_0000,
            time <= base * 0x1_0000,
        decreases doublings - i,
    {
        proof {
            vstd::arithmetic::power2::lemma_pow2_unfold((i + 1) as nat);
            vstd::arithmetic::power2::lemma2_to64();
            if i + 1 < 16 {
                vstd::arithmetic::power2::lemma_pow2_strictly_increases((i + 1) as nat, 16);
            }
            assert(base * (2 * pow2(i as nat)) == 2 * (base * pow2(i as nat))) by (nonlinear_arith);
            assert(base * pow2((i + 1) as nat) <= base * 0x1_0000) by (nonlinear_arith)
                requires
                    pow2((i + 1) as nat) <= 0x1_0000,
                    base >= 0,
            ;
        }
        time = time * 2;
        i += 1;
    }
    if time < max as u128 {
        time as u64
    } else {
        max
    }
}

/// The failed logins of a client, and until when it is locked out. The end is held in wider
/// numbers than the times, so that every lockout has one.
#[derive(Debug, Clone, Copy, PartialEq, Eq, Structural)]
pub struct RateState {
    pub failures: u32,
    pub locked_until: u128,
}

/// The failed logins of all clients. Times are in nanoseconds from some start.
#[derive(Debug)]
pub struct AuthRateLimiter {
    pub base: u64,
    pub max: u64,
    pub failure_cap: u32,
    pub states: Vec<(Client, RateState)>,
}

/// What is remembered of each client.
pub open spec fn state_map(v: Seq<(Client, RateState)>) -> Map<Client, RateState> {
    Map::new(
        |c: Client| exists|i: int| 0 <= i < v.len() && (#[trigger] v[i]).0 == c,
        |c: Client| v[choose|i: int| 0 <= i < v.len() && (#[trigger] v[i]).0 == c].1,
    )
}

/// Each client is listed once.
pub open spec fn listed_once(v: Seq<(Client, RateState)>) -> bool {
    forall|i: int, j: int|
        0 <= i < v.len() && 0 <= j < v.len() && (#[trigger] v[i]).0 == (#[trigger] v[j]).0 ==> i
            == j
}

proof fn lemma_state_map(v: Seq<(Client, RateState)>, i: int)
    requires
        listed_once(v),
        0 <= i < v.len(),
    ensures
        state_map(v).contains_key(v[i].0),
        state_map(v)[v[i].0] == v[i].1,
{
    let c = v[i].0;
    let k = choose|k: int| 0 <= k < v.len() && (#[trigger] v[k]).0 == c;
    assert(v[i].0 == c);
    assert(k == i);
}

/// What is remembered once a client was checked: the failures of one that is let through are
/// forgotten.
pub open spec fn known_after_check(before: AuthRateLimiter, client: Client, now: u64) -> Map<
    Client,
    RateState,
> {
    if !before.is_locked(client, now) && before.known().contains_key(client) {
        before.known().insert(client, (RateState { failures: 0, ..before.known()[client] }))
    } else {
        before.known()
    }
}

impl AuthRateLimiter {
    /// Each client is listed once.
    pub open spec fn wf(&self) -> bool {
        listed_once(self.states@)
    }

    /// What is remembered of each client.
    pub open spec fn known(&self) -> Map<Client, RateState> {
        state_map(self.states@)
    }

    /// The limits are those of the other.
    pub open spec fn same_limits(&self, other: &Self) -> bool {
        self.base == other.base && self.max == other.max && self.failure_cap == other.failure_cap
    }

    /// A client is locked out at a time.
    pub open spec fn is_locked(&self, client: Client, now: u64) -> bool {
        self.known().contains_key(client) && now < self.known()[client].locked_until
    }

    /// Nothing is remembered yet, with the usual limits.
    pub fn new() -> (r: Self)
        ensures
            r.wf(),
            r.known() == Map::<Client, RateState>::empty(),
            r.states@.len() == 0,
            r.base == LOCKOUT_BASE,
            r.max == LOCKOUT_MAX,
            r.failure_cap == LOCKOUT_FAILURE_CAP,
            r.base == 2_000_000_000,
            r.max == 600_000_000_000,
            r.failure_cap == 12,
    {
        Self::with_params(LOCKOUT_BASE, LOCKOUT_MAX, LOCKOUT_FAILURE_CAP)
    }

    /// Nothing is remembered yet, with these limits.
    pub fn with_params(base: u64, max: u64, failure_cap: u32) -> (r: Self)
        ensures
            r.wf(),
            r.known() == Map::<Client, RateState>::empty(),
            r.states@.len() == 0,
            r.base == base,
            r.max == max,
            r.failure_cap == failure_cap,
    {
        let r = AuthRateLimiter { base, max, failure_cap, states: Vec::new() };
        assert(r.known() =~= Map::<Client, RateState>::empty());
        r
    }

    /// The place of a client in the list, or the length of the list.
    fn find(&self, client: Client) -> (r: usize)
        requires
            self.wf(),
        ensures
            r <= self.states@.len(),
            r < self.states@.len() ==> self.states@[r as int].0 == client
                && self.known().contains_key(client) && self.known()[client]
                == self.states@[r as int].1,
            r == self.states@.len() ==> !self.known().contains_key(client),
    {
        let mut i: usize = 0;
        while i < self.states.len()
            invariant
                i <= self.states@.len(),
                self.wf(),
                forall|j: int| 0 <= j < i ==> (#[trigger] self.states@[j]).0 != client,
            decreases self.states@.len() - i,
        {
            if self.states[i].0 == client {
                proof {
                    lemma_state_map(self.states@, i as int);
                }
                return i;
            }
            i += 1;
        }
        i
    }

    /// Whether a request may go on. One from a client that is locked out may not, whatever its
    /// credentials; where the time is over, the count of failures starts again.
    pub fn check(&mut self, client: Client, now: u64) -> (r: bool)
        requires
            old(self).wf(),
        ensures
            final(self).wf(),
            final(self).same_limits(old(self)),
            final(self).states@.len() == old(self).states@.len(),
            r == !old(self).is_locked(client, now),
            final(self).known() == known_after_check(*old(self), client, now),
            r <==> !(old(self).known().contains_key(client) && now < old(self).known()[client].locked_until),
            final(self).known().dom() == old(self).known().dom(),
            forall|c: Client|
                c != client && old(self).known().contains_key(c) ==> #[trigger] final(self).known()[c] == old(self).known()[c],
            old(self).known().contains_key(client) ==> final(self).known()[client].locked_until
                == old(self).known()[client].locked_until && final(self).known()[client].failures
                == (if r {
                0
            } else {
                old(self).known()[client].failures
            }),
    {
        let i: usize = self.find(client);
        if i == self.states.len() {
            return true;
        }
        let s = self.states[i].1;
        if (now as u128) < s.locked_until {
            return false;
        }
        let ghost before = self.states@;
        let fresh = RateState { failures: 0, locked_until: s.locked_until };
        self.states.set(i, (client, fresh));
        proof {
            lemma_updated(before, i as int, client, fresh);
        }
        true
    }
}

proof fn lemma_updated(v: Seq<(Client, RateState)>, i: int, client: Client, s: RateState)
    requires
        listed_once(v),
        0 <= i < v.len(),
        v[i].0 == client,
    ensures
        listed_once(v.update(i, (client, s))),
        state_map(v.update(i, (client, s))) == state_map(v).insert(client, s),
{
    let w = v.update(i, (client, s));
    assert forall|a: int, b: int|
        0 <= a < w.len() && 0 <= b < w.len() && (#[trigger] w[a]).0 == (#[trigger] w[b]).0 implies a
        == b by {
        assert(v[a].0 == w[a].0 && v[b].0 == w[b].0);
    }
    lemma_same_map(w, state_map(v).insert(client, s), v, i);
}

/// A list is the map that holds just what the list does.
proof fn lemma_same_map(
    w: Seq<(Client, RateState)>,
    m: Map<Client, RateState>,
    v: Seq<(Client, RateState)>,
    i: int,
)
    requires
        listed_once(v),
        listed_once(w),
        0 <= i < v.len(),
        w == v.update(i, w[i]),
        w[i].0 == v[i].0,
        m == state_map(v).insert(w[i].0, w[i].1),
    ensures
        state_map(w) == m,
{
    let sw = state_map(w);
    assert forall|c: Client| sw.contains_key(c) <==> m.contains_key(c) by {
        if sw.contains_key(c) {
            let k = choose|k: int| 0 <= k < w.len() && (#[trigger] w[k]).0 == c;
            assert(v[k].0 == c);
            lemma_state_map(v, k);
        }
        if m.contains_key(c) {
            if c == w[i].0 {
                assert(w[i].0 == c);
            } else {
                let k = choose|k: int| 0 <= k < v.len() && (#[trigger] v[k]).0 == c;
                assert(w[k].0 == c);
            }
        }
    }
    assert forall|c: Client| #[trigger] sw.contains_key(c) implies sw[c] == m[c] by {
        let k = choose|k: int| 0 <= k < w.len() && (#[trigger] w[k]).0 == c;
        lemma_state_map(w, k);
        if k != i {
            assert(v[k] == w[k]);
            lemma_state_map(v, k);
            assert(c != w[i].0);
        }
    }
    assert(sw =~= m);
}

/// What is remembered of the clients that are still locked out.
pub open spec fn still_locked(m: Map<Client, RateState>, now: u64) -> Map<Client, RateState> {
    Map::new(
        |c: Client| m.contains_key(c) && now < m[c].locked_until,
        |c: Client| m[c],
    )
}

proof fn lemma_pushed(v: Seq<(Client, RateState)>, client: Client, s: RateState)
    requires
        listed_once(v),
        !state_map(v).contains_key(client),
    ensures
        listed_once(v.push((client, s))),
        state_map(v.push((client, s))) == state_map(v).insert(client, s),
{
    let w = v.push((client, s));
    assert forall|i: int| 0 <= i < v.len() implies (#[trigger] v[i]).0 != client by {
        if v[i].0 == client {
            lemma_state_map(v, i);
        }
    }
    assert forall|a: int, b: int|
        0 <= a < w.len() && 0 <= b < w.len() && (#[trigger] w[a]).0 == (#[trigger] w[b]).0 implies a
        == b by {
        if a < v.len() {
            assert(v[a].0 == w[a].0);
        }
        if b < v.len() {
            assert(v[b].0 == w[b].0);
        }
    }
    let m = state_map(v).insert(client, s);
    let sw = state_map(w);
    assert forall|c: Client| sw.contains_key(c) <==> m.contains_key(c) by {
        if sw.contains_key(c) {
            let k = choose|k: int| 0 <= k < w.len() && (#[trigger] w[k]).0 == c;
            if k < v.len() {
                assert(v[k].0 == c);
            }
        }
        if m.contains_key(c) {
            if c == client {
                assert(w[v.len() as int].0 == c);
            } else {
                let k = choose|k: int| 0 <= k < v.len() && (#[trigger] v[k]).0 == c;
                assert(w[k].0 == c);
            }
        }
    }
    assert forall|c: Client| #[trigger] sw.contains_key(c) implies sw[c] == m[c] by {
        let k = choose|k: int| 0 <= k < w.len() && (#[trigger] w[k]).0 == c;
        lemma_state_map(w, k);
        if k < v.len() {
            assert(v[k] == w[k]);
            lemma_state_map(v, k);
        }
    }
    assert(sw =~= m);
}

/// An entry is one of the first `n` of a list, and passes a test.
spec fn passes(
    v: Seq<(Client, RateState)>,
    n: int,
    x: (Client, RateState),
    keep: spec_fn((Client, RateState)) -> bool,
) -> bool {
    keep(x) && exists|i: int| 0 <= i < n && #[trigger] v[i] == x
}

/// An entry is in a list.
spec fn has(w: Seq<(Client, RateState)>, x: (Client, RateState)) -> bool {
    exists|k: int| 0 <= k < w.len() && #[trigger] w[k] == x
}

/// The entries of a list that pass a test, in a list of their own.
proof fn lemma_kept(
    v: Seq<(Client, RateState)>,
    w: Seq<(Client, RateState)>,
    keep: spec_fn((Client, RateState)) -> bool,
)
    requires
        listed_once(v),
        listed_once(w),
        forall|k: int| 0 <= k < w.len() ==> passes(v, v.len() as int, #[trigger] w[k], keep),
        forall|i: int| 0 <= i < v.len() && keep(#[trigger] v[i]) ==> has(w, v[i]),
    ensures
        state_map(w) == Map::new(
            |c: Client| state_map(v).contains_key(c) && keep((c, state_map(v)[c])),
            |c: Client| state_map(v)[c],
        ),
{
    let m = Map::new(
        |c: Client| state_map(v).contains_key(c) && keep((c, state_map(v)[c])),
        |c: Client| state_map(v)[c],
    );
    let sw = state_map(w);
    assert forall|c: Client| sw.contains_key(c) <==> m.contains_key(c) by {
        if sw.contains_key(c) {
            let k = choose|k: int| 0 <= k < w.len() && (#[trigger] w[k]).0 == c;
            assert(passes(v, v.len() as int, w[k], keep));
            let i = choose|i: int| 0 <= i < v.len() && #[trigger] v[i] == w[k];
            lemma_state_map(v, i);
            assert(v[i] == (c, state_map(v)[c]));
        }
        if m.contains_key(c) {
            let i = choose|i: int| 0 <= i < v.len() && (#[trigger] v[i]).0 == c;
            lemma_state_map(v, i);
            assert(v[i] == (c, state_map(v)[c]));
            assert(has(w, v[i]));
            let k = choose|k: int| 0 <= k < w.len() && #[trigger] w[k] == v[i];
            assert(w[k].0 == c);
        }
    }
    assert forall|c: Client| #[trigger] sw.contains_key(c) implies sw[c] == m[c] by {
        let k = choose|k: int| 0 <= k < w.len() && (#[trigger] w[k]).0 == c;
        lemma_state_map(w, k);
        assert(passes(v, v.len() as int, w[k], keep));
        let i = choose|i: int| 0 <= i < v.len() && #[trigger] v[i] == w[k];
        lemma_state_map(v, i);
    }
    assert(sw =~= m);
}

/// Keeps the entries of the clients that are still locked out.
fn prune(v: &Vec<(Client, RateState)>, now: u64) -> (r: Vec<(Client, RateState)>)
    requires
        listed_once(v@),
    ensures
        listed_once(r@),
        state_map(r@) == still_locked(state_map(v@), now),
        r@.len() <= v@.len(),
{
    let ghost keep = |x: (Client, RateState)| now < x.1.locked_until;
    let mut out: Vec<(Client, RateState)> = Vec::new();
    let mut i: usize = 0;
    while i < v.len()
        invariant
            i <= v@.len(),
            keep == (|x: (Client, RateState)| now < x.1.locked_until),
            listed_once(v@),
            listed_once(out@),
            out@.len() <= i,
            forall|k: int| 0 <= k < out@.len() ==> passes(v@, i as int, #[trigger] out@[k], keep),
            forall|j: int| 0 <= j < i && keep(#[trigger] v@[j]) ==> has(out@, v@[j]),
        decreases v@.len() - i,
    {
        let ghost before = out@;
        proof {
            assert forall|k: int| 0 <= k < before.len() implies passes(
                v@,
                i + 1,
                #[trigger] before[k],
                keep,
            ) && before[k].0 != v@[i as int].0 by {
                assert(passes(v@, i as int, before[k], keep));
                let j = choose|j: int| 0 <= j < i && #[trigger] v@[j] == before[k];
                assert(v@[j] == before[k]);
                if before[k].0 == v@[i as int].0 {
                    assert(v@[j].0 == v@[i as int].0);
                }
            }
        }
        if (now as u128) < v[i].1.locked_until {
            out.push(v[i]);
            proof {
                let x = v@[i as int];
                assert(keep(x));
                assert forall|a: int, b: int|
                    0 <= a < out@.len() && 0 <= b < out@.len() && (#[trigger] out@[a]).0 == (
                    #[trigger] out@[b]).0 implies a == b by {
                    if a < before.len() {
                        assert(before[a] == out@[a]);
                    }
                    if b < before.len() {
                        assert(before[b] == out@[b]);
                    }
                }
                assert forall|k: int| 0 <= k < out@.len() implies passes(
                    v@,
                    i + 1,
                    #[trigger] out@[k],
                    keep,
                ) by {
                    if k < before.len() {
                        assert(before[k] == out@[k]);
                    } else {
                        assert(v@[i as int] == out@[k]);
                    }
                }
                assert forall|j: int| 0 <= j < i + 1 && keep(#[trigger] v@[j]) implies has(
                    out@,
                    v@[j],
                ) by {
                    if j < i {
                        assert(has(before, v@[j]));
                        let k = choose|k: int| 0 <= k < before.len() && #[trigger] before[k]
                            == v@[j];
                        assert(out@[k] == v@[j]);
                    } else {
                        assert(out@[before.len() as int] == v@[j]);
                    }
                }
            }
        }
        i += 1;
    }
    proof {
        lemma_kept(v@, out@, keep);
        assert(state_map(out@) =~= still_locked(state_map(v@), now));
    }
    out
}

/// What is remembered when a failure is to be counted: all, or past the limit the clients that
/// are still locked out.
pub open spec fn before_failure(limiter: AuthRateLimiter, now: u64) -> Map<Client, RateState> {
    if limiter.states@.len() >= MAX_TRACKED_IPS {
        still_locked(limiter.known(), now)
    } else {
        limiter.known()
    }
}

/// How many failures a client has after one more.
pub open spec fn failures_after(m: Map<Client, RateState>, client: Client, cap: u32) -> u32 {
    let before = if m.contains_key(client) {
        m[client].failures as int
    } else {
        0
    };
    if before + 1 <= cap {
        (before + 1) as u32
    } else {
        cap
    }
}

/// What is remembered once one more failure of a client was counted.
pub open spec fn known_after_failure(before: AuthRateLimiter, client: Client, now: u64) -> Map<
    Client,
    RateState,
> {
    let m = before_failure(before, now);
    let failures = failures_after(m, client, before.failure_cap);
    let time = lockout(failures as nat, before.base as nat, before.max as nat);
    m.insert(client, (RateState { failures, locked_until: (now + time) as u128 }))
}

impl AuthRateLimiter {
    /// Counts a failed login, and locks the client out for it.
    pub fn record_failure(&mut self, client: Client, now: u64)
        requires
            old(self).wf(),
        ensures
            final(self).wf(),
            final(self).same_limits(old(self)),
            final(self).known() == known_after_failure(*old(self), client, now),
            final(self).known().contains_key(client),
            final(self).known()[client].locked_until == now + lockout(
                final(self).known()[client].failures as nat,
                old(self).base as nat,
                old(self).max as nat,
            ),
            old(self).states@.len() < 10_000 || old(self).is_locked(client, now) ==> final(self).known()[client].failures == ({
                let was = if old(self).known().contains_key(client) {
                    old(self).known()[client].failures as int
                } else {
                    0
                };
                if was < old(self).failure_cap {
                    was + 1
                } else {
                    old(self).failure_cap as int
                }
            }),
            forall|c: Client|
                c != client ==> (#[trigger] final(self).known().contains_key(c) <==> old(self).known().contains_key(c) && (old(self).states@.len() < 10_000 || now < old(self).known()[c].locked_until)),
            forall|c: Client|
                c != client && #[trigger] final(self).known().contains_key(c) ==> final(self).known()[c] == old(self).known()[c],
    {
        if self.states.len() >= MAX_TRACKED_IPS {
            self.states = prune(&self.states, now);
        }
        let i: usize = self.find(client);
        let known = i < self.states.len();
        let before: u32 = if known {
            self.states[i].1.failures
        } else {
            0
        };
        let failures: u32 = if before < self.failure_cap {
            before + 1
        } else {
            self.failure_cap
        };
        let time: u64 = lockout_duration(failures, self.base, self.max);
        let s = RateState { failures, locked_until: now as u128 + time as u128 };
        let ghost list = self.states@;
        if known {
            self.states.set(i, (client, s));
            proof {
                lemma_updated(list, i as int, client, s);
            }
        } else {
            self.states.push((client, s));
            proof {
                lemma_pushed(list, client, s);
            }
        }
    }

    /// Forgets the failed logins of a client.
    pub fn record_success(&mut self, client: Client)
        requires
            old(self).wf(),
        ensures
            final(self).wf(),
            final(self).same_limits(old(self)),
            final(self).known() == old(self).known().remove(client),
    {
        let i: usize = self.find(client);
        let ghost before = self.states@;
        if i < self.states.len() {
            self.states.remove(i);
            proof {
                let w = self.states@;
                assert forall|a: int, b: int|
                    0 <= a < w.len() && 0 <= b < w.len() && (#[trigger] w[a]).0 == (
                    #[trigger] w[b]).0 implies a == b by {
                    let a0 = if a < i {
                        a
                    } else {
                        a + 1
                    };
                    let b0 = if b < i {
                        b
                    } else {
                        b + 1
                    };
                    assert(w[a] == before[a0] && w[b] == before[b0]);
                    assert(before[a0].0 == before[b0].0);
                }
                let keep = |x: (Client, RateState)| x.0 != client;
                assert forall|k: int| 0 <= k < w.len() implies passes(
                    before,
                    before.len() as int,
                    #[trigger] w[k],
                    keep,
                ) by {
                    let j = if k < i {
                        k
                    } else {
                        k + 1
                    };
                    assert(before[j] == w[k]);
                    assert(before[j].0 == before[j].0);
                    if before[j].0 == client {
                        assert(before[j].0 == before[i as int].0);
                    }
                }
                assert forall|j: int| 0 <= j < before.len() && keep(#[trigger] before[j]) implies has(
                    w,
                    before[j],
                ) by {
                    let k = if j < i {
                        j
                    } else {
                        j - 1
                    };
                    assert(w[k] == before[j]);
                }
                lemma_kept(before, w, keep);
                assert(self.known() =~= old(self).known().remove(client));
            }
        } else {
            assert(self.known() =~= old(self).known().remove(client));
        }
    }
}

/// Whether failed logins are slowed down; not without settings.
pub fn rate_limit_enabled(settings: Option<&Settings>) -> (r: bool)
    ensures
        r == (settings is Some && settings->0.rate_limit),
{
    match settings {
        Some(s) => s.rate_limit,
        None => false,
    }
}

/// How many failures the first failed login after a lockout counts for.
pub open spec fn first_failure(cap: u32) -> u32 {
    if cap >= 1 {
        1
    } else {
        0
    }
}

/// Lets a request in or not, by its credentials. Where failed logins are slowed down, a client
/// that is locked out is not let in whatever they are; any other is forgotten where it logs in,
/// and locked out where it does not.
pub fn require_auth(
    limiter: &mut AuthRateLimiter,
    settings: Option<&Settings>,
    q: &QueryParams,
    client: Client,
    now: u64,
) -> (r: Result<(), Unauthorized>)
    requires
        old(limiter).wf(),
    ensures
        final(limiter).wf(),
        final(limiter).same_limits(old(limiter)),
        ({
            let valid = settings is Some && logs_in(
                *q,
                settings->0.username@,
                settings->0.password@,
            );
            if !(settings is Some && settings->0.rate_limit) {
                &&& r is Ok <==> valid
                &&& final(limiter).known() == old(limiter).known()
            } else if old(limiter).is_locked(client, now) {
                &&& r is Err
                &&& final(limiter).known() == old(limiter).known()
            } else if valid {
                &&& r is Ok
                &&& final(limiter).known() == old(limiter).known().remove(client)
            } else {
                let failures = first_failure(old(limiter).failure_cap);
                let time = lockout(
                    failures as nat,
                    old(limiter).base as nat,
                    old(limiter).max as nat,
                );
                &&& r is Err
                &&& final(limiter).known() == before_failure(*old(limiter), now).insert(
                    client,
                    (RateState { failures, locked_until: (now + time) as u128 }),
                )
            }
        }),
        r is Ok ==> settings is Some && q.u is Some && q.u->0@ == settings->0.username@,
        settings is Some && settings->0.rate_limit && r is Ok ==> !final(limiter).known().contains_key(client) && forall|later: u64|
            !final(limiter).is_locked(client, later),
        settings is Some && settings->0.rate_limit && old(limiter).is_locked(client, now) ==> r
            is Err,
        settings is Some && settings->0.rate_limit && !old(limiter).is_locked(client, now) && r
            is Err ==> forall|later: u64|
            #![trigger final(limiter).is_locked(client, later)]
            {
                final(limiter).is_locked(client, later) <==> later < now + (if old(limiter).base
                    < old(limiter).max {
                    old(limiter).base as int
                } else {
                    old(limiter).max as int
                })
            },
        forall|c: Client, later: u64|
            c != client && later >= now ==> #[trigger] final(limiter).is_locked(c, later) == old(limiter).is_locked(c, later),
{
    proof {
        vstd::arithmetic::power2::lemma2_to64();
        assert(old(limiter).base * pow2(0) == old(limiter).base);
    }
    if !rate_limit_enabled(settings) {
        if authenticate(settings, q) {
            return Ok(());
        }
        return Err(Unauthorized);
    }
    if !limiter.check(client, now) {
        return Err(Unauthorized);
    }
    let ghost checked = *limiter;
    if authenticate(settings, q) {
        limiter.record_success(client);
        assert(limiter.known() =~= old(limiter).known().remove(client));
        Ok(())
    } else {
        limiter.record_failure(client, now);
        proof {
            let m = before_failure(checked, now);
            let n = before_failure(*old(limiter), now);
            assert(failures_after(m, client, checked.failure_cap) == first_failure(
                checked.failure_cap,
            ));
            assert(m.remove(client) =~= n.remove(client));
            assert(limiter.known() =~= n.insert(client, limiter.known()[client]));
        }
        Err(Unauthorized)
    }
}

/// The time that a client is locked out never exceeds the longest, never shrinks with another
/// failure, and doubles with each up to the longest, as long as failures are counted apart.
pub proof fn law_lockout_doubles_and_caps(failures: nat, base: nat, max: nat)
    requires
        failures >= 1,
    ensures
        lockout(failures, base, max) <= max,
        lockout(1, base, max) == (if base < max {
            base
        } else {
            max
        }),
        lockout(failures, base, max) <= lockout(failures + 1, base, max),
        failures < 17 && lockout(failures, base, max) < max ==> lockout(failures + 1, base, max)
            == (if 2 * lockout(failures, base, max) < max {
            2 * lockout(failures, base, max)
        } else {
            max
        }),
{
    vstd::arithmetic::power2::lemma2_to64();
    let d: nat = if failures > 17 {
        16
    } else {
        (failures - 1) as nat
    };
    assert(base * pow2(0) == base);
    if failures < 17 {
        vstd::arithmetic::power2::lemma_pow2_unfold(d + 1);
        assert(base * pow2(d + 1) == 2 * (base * pow2(d))) by (nonlinear_arith)
            requires
                pow2(d + 1) == 2 * pow2(d),
        ;
        assert(base * pow2(d) <= 2 * (base * pow2(d))) by (nonlinear_arith)
            requires
                base >= 0,
                pow2(d) >= 0,
        ;
    }
}

/// A failed login locks the client out from then until the time is over, and no other client.
pub proof fn law_a_failure_locks_its_client(
    before: AuthRateLimiter,
    after: AuthRateLimiter,
    client: Client,
    now: u64,
    later: u64,
    other: Client,
)
    requires
        before.wf(),
        after.wf(),
        now <= later,
        after.known() == known_after_failure(before, client, now),
    ensures
        ({
            let m = before_failure(before, now);
            let failures = failures_after(m, client, before.failure_cap);
            let time = lockout(failures as nat, before.base as nat, before.max as nat);
            after.is_locked(client, later) <==> later < now + time
        }),
        other != client ==> after.is_locked(other, later) == before.is_locked(other, later),
{
}

/// To check a client changes no lockout: whoever was locked out stays so, and for as long.
pub proof fn law_checking_locks_nobody(
    before: AuthRateLimiter,
    after: AuthRateLimiter,
    client: Client,
    now: u64,
    other: Client,
    later: u64,
)
    requires
        after.known() == known_after_check(before, client, now),
    ensures
        after.is_locked(other, later) == before.is_locked(other, later),
{
}

/// The lockout of a client from its first failed login on. A limiter that remembered nothing
/// counts one failure of a client at `start`: the client is refused exactly until the lockout is
/// over, any other client is let through, and after a login that succeeds the client is let
/// through at once. `failed` is what the failure leaves, `freed` what the login leaves of that.
pub proof fn law_one_failure_locks_out(
    fresh: AuthRateLimiter,
    failed: AuthRateLimiter,
    freed: AuthRateLimiter,
    client: Client,
    other: Client,
    start: u64,
    now: u64,
)
    requires
        fresh.known() == Map::<Client, RateState>::empty(),
        failed.known() == known_after_failure(fresh, client, start),
        freed.known() == failed.known().remove(client),
        other != client,
    ensures
        failed.is_locked(client, now) <==> now < start + lockout(
            1,
            fresh.base as nat,
            fresh.max as nat,
        ),
        !failed.is_locked(other, now),
        !freed.is_locked(client, now),
        !freed.is_locked(other, now),
{
    let m = before_failure(fresh, start);
    assert(!m.contains_key(client) && !m.contains_key(other));
}

/// A text in lower case is as long as before, and each of its characters is in lower case.
pub proof fn law_lower_case_is_letter_by_letter(s: Seq<char>)
    ensures
        lower_text(s).len() == s.len(),
        forall|i: int| 0 <= i < s.len() ==> #[trigger] lower_text(s)[i] == lower(s[i]),
{
}

/// Bytes are written with two digits each: the first counts sixteens, the second ones. The digits
/// run from zero to nine and on from `a`.
pub proof fn law_each_byte_has_two_digits(bytes: Seq<u8>)
    ensures
        hex(bytes).len() == 2 * bytes.len(),
        forall|i: int|
            0 <= i < bytes.len() ==> #[trigger] hex(bytes)[2 * i] == hex_digit(bytes[i] as int / 16),
        forall|i: int|
            0 <= i < bytes.len() ==> #[trigger] hex(bytes)[2 * i + 1] == hex_digit(
                bytes[i] as int % 16,
            ),
        forall|n: int| 0 <= n < 10 ==> #[trigger] hex_digit(n) as int == '0' as int + n,
        forall|n: int| 10 <= n < 16 ==> #[trigger] hex_digit(n) as int == 'a' as int + n - 10,
    decreases bytes.len(),
{
    if bytes.len() > 0 {
        let front = bytes.drop_last();
        law_each_byte_has_two_digits(front);
        let n = front.len() as int;
        assert forall|i: int| 0 <= i < bytes.len() implies #[trigger] hex(bytes)[2 * i]
            == hex_digit(bytes[i] as int / 16) by {
            if i < n {
                assert(front[i] == bytes[i]);
                assert(hex(front)[2 * i] == hex_digit(front[i] as int / 16));
            }
        }
        assert forall|i: int| 0 <= i < bytes.len() implies #[trigger] hex(bytes)[2 * i + 1]
            == hex_digit(bytes[i] as int % 16) by {
            if i < n {
                assert(front[i] == bytes[i]);
                assert(hex(front)[2 * i + 1] == hex_digit(front[i] as int % 16));
            }
        }
    }
}

/// The right password logs in, and another does not, unless it is the digest of the right one
/// behind `enc:`; a password that itself begins so is never taken as it stands.
pub proof fn law_the_right_password_fits(p: Seq<char>, password: Seq<char>)
    ensures
        !"enc:"@.is_prefix_of(password) ==> password_fits(password, password),
        !"enc:"@.is_prefix_of(p) && p != password ==> !password_fits(p, password),
        password_fits("enc:"@ + p, password) <==> lower_text(p) == hex(md5(encode_utf8(password))),
{
    reveal_strlit("enc:");
    text::law_a_prefix_leaves_the_rest("enc:"@, p, password);
    text::law_a_prefix_leaves_the_rest("enc:"@, p, p);
}

/// Past seventeen failures the time grows no more, and no failure at all locks out as long as one
/// would.
pub proof fn law_lockout_is_the_same_past_seventeen(failures: nat, base: nat, max: nat)
    ensures
        failures >= 17 ==> lockout(failures, base, max) == lockout(17, base, max),
        lockout(0, base, max) == lockout(1, base, max),
{
}

/// What is remembered of a client is what the list holds for it, and nothing is remembered of a
/// client that is not in the list.
pub proof fn law_the_list_is_what_is_known(limiter: AuthRateLimiter, i: int, client: Client)
    requires
        limiter.wf(),
        0 <= i < limiter.states@.len(),
    ensures
        limiter.known().contains_key(limiter.states@[i].0),
        limiter.known()[limiter.states@[i].0] == limiter.states@[i].1,
        limiter.known().contains_key(client) ==> exists|k: int|
            0 <= k < limiter.states@.len() && (#[trigger] limiter.states@[k]).0 == client,
        MAX_BODY_BYTES == 1_048_576,
{
    lemma_state_map(limiter.states@, i);
}

} // verus!
