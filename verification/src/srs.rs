//! Viewer-session and publisher-slot state: the access-control engine.
//!
//! All operations are plain functions over plain values.  The caller
//! supplies the current time (seconds) and, where a secret has to be
//! checked against the key file, the file's current contents.

use vstd::prelude::*;
use crate::status::{ClientStatus, StreamerStatus};
use crate::text::{is_space, space_char, str_eq};

verus! {

// ===========================================================================
// Records
// ===========================================================================

/// One viewer session, keyed by (remote identity, session token).
#[derive(Debug, Clone)]
pub struct ClientRecord {
    /// Remote identity (address string) of the viewer.
    pub ip: String,
    /// Client-supplied session token.
    pub session_id: String,
    /// The question last issued to this viewer.
    pub question: String,
    /// The expected answer, compared verbatim.
    pub answer: String,
    /// Optional display name, set at most once.
    pub display_name: Option<String>,
    /// Whether this session's credential was verified as the publisher's.
    pub is_publisher: bool,
    /// Creation time, seconds.
    pub created_at: u64,
    /// Current status.
    pub status: ClientStatus,
    /// Last activity time, seconds.
    pub last_activity: u64,
}

/// The (identity, token) key of a session.
pub open spec fn key_of(c: ClientRecord) -> (Seq<char>, Seq<char>) {
    (c.ip@, c.session_id@)
}

/// Whether a session in status `status` with last activity `last` has
/// outlived its time-to-live at time `now`.
pub open spec fn expired_at(status: ClientStatus, last: u64, now: u64) -> bool {
    match status.ttl() {
        Some(t) => now > last && now - last > t,
        None => false,
    }
}

impl ClientRecord {
    /// A fresh session: pending, no challenge assigned yet.
    pub fn new(ip: String, session_id: String, now: u64) -> (r: Self)
        ensures
            r.ip == ip,
            r.session_id == session_id,
            r.question@.len() == 0,
            r.answer@.len() == 0,
            r.display_name is None,
            !r.is_publisher,
            r.created_at == now,
            r.status == ClientStatus::Pending,
            r.last_activity == now,
    {
        Self {
            ip,
            session_id,
            question: String::new(),
            answer: String::new(),
            display_name: None,
            is_publisher: false,
            created_at: now,
            status: ClientStatus::Pending,
            last_activity: now,
        }
    }

    /// Whether this session has outlived the time-to-live of its status.
    pub fn is_expired(&self, now: u64) -> (r: bool)
        ensures
            r == expired_at(self.status, self.last_activity, now),
    {
        match self.status.expiration_duration() {
            Some(t) => now > self.last_activity && now - self.last_activity > t,
            None => false,
        }
    }
}

/// The single publisher slot.
#[derive(Debug, Clone)]
pub struct StreamerRecord {
    /// Address the stream is being pushed from.
    pub ip: Option<String>,
    /// The verified push secret, kept so an interrupted stream can resume.
    pub secret: Option<String>,
    /// Session token bound to the publisher, used to authorize `end`.
    pub session_id: Option<String>,
    /// Stream locator, `app=<app>&stream=<stream>`.
    pub stream_uri: Option<String>,
    /// Operator-settable room label.
    pub stream_name: Option<String>,
    /// Current status.
    pub status: StreamerStatus,
    /// Last activity time, seconds.
    pub last_activity: u64,
}

/// The empty publisher slot as (re)created at time `now`.
pub open spec fn idle_streamer(now: u64) -> StreamerRecord {
    StreamerRecord {
        ip: None,
        secret: None,
        session_id: None,
        stream_uri: None,
        stream_name: None,
        status: StreamerStatus::Standby,
        last_activity: now,
    }
}

/// Whether the slot in status `status` with last activity `last` has
/// outlived its time-to-live at time `now`.
pub open spec fn streamer_expired_at(status: StreamerStatus, last: u64, now: u64) -> bool {
    match status.ttl() {
        Some(t) => now > last && now - last > t,
        None => false,
    }
}

impl StreamerRecord {
    /// An empty slot.
    pub fn new(now: u64) -> (r: Self)
        ensures
            r == idle_streamer(now),
    {
        Self {
            ip: None,
            secret: None,
            session_id: None,
            stream_uri: None,
            stream_name: None,
            status: StreamerStatus::Standby,
            last_activity: now,
        }
    }

    /// Whether the slot has outlived the time-to-live of its status.
    pub fn is_expired(&self, now: u64) -> (r: bool)
        ensures
            r == streamer_expired_at(self.status, self.last_activity, now),
    {
        match self.status.expiration_duration() {
            Some(t) => now > self.last_activity && now - self.last_activity > t,
            None => false,
        }
    }
}

// ===========================================================================
// Secret verification
// ===========================================================================

/// `s[i..j]` is a maximal run of non-separator characters.
pub open spec fn token_at(s: Seq<char>, i: int, j: int) -> bool {
    &&& 0 <= i < j <= s.len()
    &&& (forall|k: int| i <= k < j ==> !is_space(#[trigger] s[k]))
    &&& (i == 0 || is_space(s[i - 1]))
    &&& (j == s.len() || is_space(s[j]))
}

/// `t` appears in `s` as a whole separator-delimited token.
pub open spec fn has_token(s: Seq<char>, t: Seq<char>) -> bool {
    exists|i: int, j: int| #[trigger] token_at(s, i, j) && s.subrange(i, j) == t
}

/// Checks a presented secret against the contents of the key file, one
/// token per whitespace-separated word.
pub struct StreamerVerifier {
    /// Path of the key file; the caller reads it and passes the contents in.
    pub secret_path: String,
}

impl StreamerVerifier {
    /// Remembers where the key file lives.
    pub fn new(secret_path: String) -> (r: Self)
        ensures
            r.secret_path == secret_path,
    {
        Self { secret_path }
    }

    /// Decides whether `secret` is one of the whitespace-separated tokens
    /// of `content` (the key file's current contents).
    pub fn authorize(&self, content: &str, secret: &str) -> (r: bool)
        ensures
            r == has_token(content@, secret@),
    {
        content_has_token(content, secret)
    }
}

/// Compares the characters of `content` in `[ts, j)` with `secret`.
fn str_range_eq(content: &str, ts: usize, j: usize, secret: &str) -> (r: bool)
    requires
        ts <= j <= content@.len(),
        j - ts == secret@.len(),
    ensures
        r == (content@.subrange(ts as int, j as int) == secret@),
{
    let m = j - ts;
    let mut k: usize = 0;
    while k < m
        invariant
            ts <= j <= content@.len(),
            m == j - ts == secret@.len(),
            k <= m,
            forall|l: int| 0 <= l < k ==> content@[ts + l] == secret@[l],
        decreases m - k,
    {
        if content.get_char(ts + k) != secret.get_char(k) {
            proof {
                let ki = k as int;
                assert(content@.subrange(ts as int, j as int)[ki] != secret@[ki]);
            }
            return false;
        }
        k += 1;
    }
    proof {
        assert(content@.subrange(ts as int, j as int) =~= secret@);
    }
    true
}

/// Scans `content` for a whole token equal to `secret`.
pub fn content_has_token(content: &str, secret: &str) -> (r: bool)
    ensures
        r == has_token(content@, secret@),
{
    let n = content.unicode_len();
    let m = secret.unicode_len();
    let mut i: usize = 0;
    while i < n
        invariant
            n == content@.len(),
            m == secret@.len(),
            i <= n,
            forall|i0: int, j0: int|
                #[trigger] token_at(content@, i0, j0) && i0 < i ==> content@.subrange(i0, j0)
                    != secret@,
            i == n || i == 0 || is_space(content@[i - 1]) || is_space(content@[i as int]),
        decreases n - i,
    {
        if space_char(content.get_char(i)) {
            proof {
                assert forall|i0: int, j0: int|
                    #[trigger] token_at(content@, i0, j0) && i0 < i + 1 implies content@.subrange(
                    i0,
                    j0,
                ) != secret@ by {
                    if i0 == i {
                        assert(!is_space(content@[i0]));
                    }
                }
            }
            i += 1;
        } else {
            // a token starts here
            let ts = i;
            let mut j = i;
            while j < n && !space_char(content.get_char(j))
                invariant
                    n == content@.len(),
                    ts <= j <= n,
                    forall|k: int| ts <= k < j ==> !is_space(#[trigger] content@[k]),
                decreases n - j,
            {
                j += 1;
            }
            proof {
                assert(token_at(content@, ts as int, j as int));
            }
            // compare the token with the secret
            if j - ts == m {
                if str_range_eq(content, ts, j, secret) {
                    return true;
                }
            } else {
                proof {
                    assert(content@.subrange(ts as int, j as int).len() != secret@.len());
                }
            }
            // no token inside [0, j) equals the secret
            proof {
                assert forall|i0: int, j0: int|
                    #[trigger] token_at(content@, i0, j0) && i0 < j implies content@.subrange(
                    i0,
                    j0,
                ) != secret@ by {
                    if i0 < ts {
                        // covered by the outer invariant
                    } else if i0 == ts {
                        // a maximal token starting at ts must end exactly at j
                        if j0 < j {
                            assert(!is_space(content@[j0]));
                        } else if j0 > j {
                            assert(j < n && is_space(content@[j as int]));
                        }
                        assert(j0 == j);
                    } else {
                        // ts < i0 < j: the character before i0 is not a separator
                        assert(!is_space(content@[i0 - 1]));
                    }
                }
            }
            i = j;
        }
    }
    proof {
        assert forall|i0: int, j0: int|
            #[trigger] token_at(content@, i0, j0) implies content@.subrange(i0, j0) != secret@ by {
            assert(i0 < n);
        }
    }
    false
}

// ===========================================================================
// The session table as a sequence with unique keys
// ===========================================================================

/// The first session with key `k`, scanning from the front.
pub open spec fn lookup(cs: Seq<ClientRecord>, k: (Seq<char>, Seq<char>)) -> Option<ClientRecord>
    decreases cs.len(),
{
    if cs.len() == 0 {
        None
    } else if key_of(cs[0]) == k {
        Some(cs[0])
    } else {
        lookup(cs.subrange(1, cs.len() as int), k)
    }
}

/// No two sessions share a key.
pub open spec fn wf_clients(cs: Seq<ClientRecord>) -> bool {
    forall|i: int, j: int|
        0 <= i < j < cs.len() ==> #[trigger] key_of(cs[i]) != #[trigger] key_of(cs[j])
}

/// Every pending session carries a non-empty challenge.
pub open spec fn challenges_assigned(cs: Seq<ClientRecord>) -> bool {
    forall|i: int|
        0 <= i < cs.len() && (#[trigger] cs[i]).status == ClientStatus::Pending ==> cs[i].question@.len()
            > 0 && cs[i].answer@.len() > 0
}

/// A session that is still pending holds the challenge it was created
/// with, both parts non-empty: `challenges_assigned` holds of a fresh
/// store and every operation's contract carries it forward.
pub proof fn lemma_pending_has_challenge(cs: Seq<ClientRecord>, i: int)
    requires
        challenges_assigned(cs),
        0 <= i < cs.len(),
        cs[i].status == ClientStatus::Pending,
    ensures
        cs[i].question@.len() > 0,
        cs[i].answer@.len() > 0,
{
}

proof fn lemma_wf_tail(cs: Seq<ClientRecord>)
    requires
        wf_clients(cs),
        cs.len() > 0,
    ensures
        wf_clients(cs.subrange(1, cs.len() as int)),
{
    let tail = cs.subrange(1, cs.len() as int);
    assert forall|i: int, j: int|
        0 <= i < j < tail.len() implies #[trigger] key_of(tail[i]) != #[trigger] key_of(
        tail[j],
    ) by {
        assert(tail[i] == cs[i + 1] && tail[j] == cs[j + 1]);
    }
}

/// What `lookup` finds and what it misses.
pub proof fn lemma_lookup_complete(cs: Seq<ClientRecord>, k: (Seq<char>, Seq<char>))
    ensures
        lookup(cs, k) matches Some(c) ==> exists|i: int|
            0 <= i < cs.len() && cs[i] == c && #[trigger] key_of(cs[i]) == k,
        lookup(cs, k) is None ==> forall|i: int|
            0 <= i < cs.len() ==> #[trigger] key_of(cs[i]) != k,
    decreases cs.len(),
{
    if cs.len() > 0 && key_of(cs[0]) != k {
        let tail = cs.subrange(1, cs.len() as int);
        lemma_lookup_complete(tail, k);
        if lookup(cs, k) is Some {
            let c = lookup(cs, k)->Some_0;
            let i = choose|i: int| 0 <= i < tail.len() && tail[i] == c && key_of(tail[i]) == k;
            assert(cs[i + 1] == c && key_of(cs[i + 1]) == k);
        } else {
            assert forall|i: int| 0 <= i < cs.len() implies #[trigger] key_of(cs[i]) != k by {
                if i >= 1 {
                    assert(tail[i - 1] == cs[i]);
                }
            }
        }
    }
}

/// In a well-formed table, the session at any index is what `lookup`
/// returns for its key.
pub proof fn lemma_lookup_at(cs: Seq<ClientRecord>, i: int)
    requires
        wf_clients(cs),
        0 <= i < cs.len(),
    ensures
        lookup(cs, key_of(cs[i])) == Some(cs[i]),
    decreases cs.len(),
{
    if i > 0 {
        assert(key_of(cs[0]) != key_of(cs[i]));
        let tail = cs.subrange(1, cs.len() as int);
        lemma_wf_tail(cs);
        lemma_lookup_at(tail, i - 1);
        assert(tail[i - 1] == cs[i]);
    }
}

/// Replacing the session at index `i` by one with the same key keeps the
/// table well-formed, updates that key's entry, and leaves every other
/// key's entry unchanged.
pub proof fn lemma_lookup_update(cs: Seq<ClientRecord>, i: int, c2: ClientRecord)
    requires
        wf_clients(cs),
        0 <= i < cs.len(),
        key_of(c2) == key_of(cs[i]),
    ensures
        wf_clients(cs.update(i, c2)),
        lookup(cs.update(i, c2), key_of(c2)) == Some(c2),
        forall|k2: (Seq<char>, Seq<char>)|
            k2 != key_of(c2) ==> #[trigger] lookup(cs.update(i, c2), k2) == lookup(cs, k2),
    decreases cs.len(),
{
    let cs2 = cs.update(i, c2);
    assert forall|a: int, b: int|
        0 <= a < b < cs2.len() implies #[trigger] key_of(cs2[a]) != #[trigger] key_of(
        cs2[b],
    ) by {
        assert(key_of(cs2[a]) == key_of(cs[a]) && key_of(cs2[b]) == key_of(cs[b]));
    }
    if i == 0 {
        assert forall|k2: (Seq<char>, Seq<char>)|
            k2 != key_of(c2) implies #[trigger] lookup(cs2, k2) == lookup(cs, k2) by {
            assert(cs2.subrange(1, cs2.len() as int) =~= cs.subrange(1, cs.len() as int));
        }
    } else {
        let tail = cs.subrange(1, cs.len() as int);
        let tail2 = cs2.subrange(1, cs2.len() as int);
        lemma_wf_tail(cs);
        lemma_lookup_update(tail, i - 1, c2);
        assert(tail2 =~= tail.update(i - 1, c2));
        assert(key_of(cs2[0]) == key_of(cs[0]));
        assert(key_of(cs[0]) != key_of(c2));
        assert(lookup(cs2, key_of(c2)) == lookup(tail2, key_of(c2)));
        assert forall|k2: (Seq<char>, Seq<char>)|
            k2 != key_of(c2) implies #[trigger] lookup(cs2, k2) == lookup(cs, k2) by {
            if key_of(cs[0]) == k2 {
                assert(lookup(cs2, k2) == Some(cs2[0]) && lookup(cs, k2) == Some(cs[0]));
            } else {
                assert(lookup(cs2, k2) == lookup(tail2, k2));
                assert(lookup(cs, k2) == lookup(tail, k2));
            }
        }
    }
}

/// Appending a session with a fresh key keeps the table well-formed,
/// makes that key's entry the new session, and leaves every other key's
/// entry unchanged.
pub proof fn lemma_lookup_push(cs: Seq<ClientRecord>, c: ClientRecord)
    requires
        wf_clients(cs),
        lookup(cs, key_of(c)) is None,
    ensures
        wf_clients(cs.push(c)),
        lookup(cs.push(c), key_of(c)) == Some(c),
        forall|k2: (Seq<char>, Seq<char>)|
            k2 != key_of(c) ==> #[trigger] lookup(cs.push(c), k2) == lookup(cs, k2),
    decreases cs.len(),
{
    lemma_lookup_complete(cs, key_of(c));
    let cs2 = cs.push(c);
    assert forall|a: int, b: int|
        0 <= a < b < cs2.len() implies #[trigger] key_of(cs2[a]) != #[trigger] key_of(
        cs2[b],
    ) by {
        if b < cs.len() {
            assert(key_of(cs[a]) != key_of(cs[b]));
        } else {
            assert(cs2[b] == c && cs2[a] == cs[a]);
        }
    }
    if cs.len() == 0 {
        assert(cs2[0] == c);
        assert forall|k2: (Seq<char>, Seq<char>)|
            k2 != key_of(c) implies #[trigger] lookup(cs2, k2) == lookup(cs, k2) by {
            assert(cs2.subrange(1, cs2.len() as int) =~= cs);
        }
    } else {
        let tail = cs.subrange(1, cs.len() as int);
        let tail2 = cs2.subrange(1, cs2.len() as int);
        lemma_wf_tail(cs);
        lemma_lookup_push(tail, c);
        assert(tail2 =~= tail.push(c));
        assert(key_of(cs2[0]) == key_of(cs[0]));
        assert(key_of(cs[0]) != key_of(c));
        assert(lookup(cs2, key_of(c)) == lookup(tail2, key_of(c)));
        assert forall|k2: (Seq<char>, Seq<char>)|
            k2 != key_of(c) implies #[trigger] lookup(cs2, k2) == lookup(cs, k2) by {
            if key_of(cs[0]) == k2 {
                assert(lookup(cs2, k2) == Some(cs2[0]) && lookup(cs, k2) == Some(cs[0]));
            } else {
                assert(lookup(cs2, k2) == lookup(tail2, k2));
                assert(lookup(cs, k2) == lookup(tail, k2));
            }
        }
    }
}

/// Removing the session at index `i` keeps the table well-formed, clears
/// that key's entry, and leaves every other key's entry unchanged.
pub proof fn lemma_lookup_remove(cs: Seq<ClientRecord>, i: int)
    requires
        wf_clients(cs),
        0 <= i < cs.len(),
    ensures
        wf_clients(cs.remove(i)),
        lookup(cs.remove(i), key_of(cs[i])) is None,
        forall|k2: (Seq<char>, Seq<char>)|
            k2 != key_of(cs[i]) ==> #[trigger] lookup(cs.remove(i), k2) == lookup(cs, k2),
    decreases cs.len(),
{
    let cs2 = cs.remove(i);
    assert forall|a: int, b: int|
        0 <= a < b < cs2.len() implies #[trigger] key_of(cs2[a]) != #[trigger] key_of(
        cs2[b],
    ) by {
        let a0: int = if a < i {
            a
        } else {
            a + 1
        };
        let b0: int = if b < i {
            b
        } else {
            b + 1
        };
        assert(cs2[a] == cs[a0] && cs2[b] == cs[b0]);
        assert(key_of(cs[a0]) != key_of(cs[b0]));
    }
    if i == 0 {
        assert(cs2 =~= cs.subrange(1, cs.len() as int));
        lemma_wf_tail(cs);
        lemma_lookup_complete(cs2, key_of(cs[0]));
        if lookup(cs2, key_of(cs[0])) is Some {
            let c = lookup(cs2, key_of(cs[0]))->Some_0;
            let a = choose|a: int|
                0 <= a < cs2.len() && cs2[a] == c && key_of(cs2[a]) == key_of(cs[0]);
            assert(cs2[a] == cs[a + 1]);
            assert(key_of(cs[a + 1]) != key_of(cs[0]));
        }
        assert forall|k2: (Seq<char>, Seq<char>)|
            k2 != key_of(cs[0]) implies #[trigger] lookup(cs2, k2) == lookup(cs, k2) by {
            assert(lookup(cs, k2) == lookup(cs.subrange(1, cs.len() as int), k2));
        }
    } else {
        let tail = cs.subrange(1, cs.len() as int);
        let tail2 = cs2.subrange(1, cs2.len() as int);
        lemma_wf_tail(cs);
        lemma_lookup_remove(tail, i - 1);
        assert(tail[i - 1] == cs[i]);
        assert(tail2 =~= tail.remove(i - 1));
        assert(key_of(cs2[0]) == key_of(cs[0]));
        assert(key_of(cs[0]) != key_of(cs[i]));
        assert(lookup(cs2, key_of(cs[i])) == lookup(tail2, key_of(cs[i])));
        assert forall|k2: (Seq<char>, Seq<char>)|
            k2 != key_of(cs[i]) implies #[trigger] lookup(cs2, k2) == lookup(cs, k2) by {
            if key_of(cs[0]) == k2 {
                assert(lookup(cs2, k2) == Some(cs2[0]) && lookup(cs, k2) == Some(cs[0]));
            } else {
                assert(lookup(cs2, k2) == lookup(tail2, k2));
                assert(lookup(cs, k2) == lookup(tail, k2));
            }
        }
    }
}

// ===========================================================================
// The sweep
// ===========================================================================

/// The sessions that survive a sweep at time `now`, in order.
pub open spec fn live_clients(cs: Seq<ClientRecord>, now: u64) -> Seq<ClientRecord>
    decreases cs.len(),
{
    if cs.len() == 0 {
        Seq::empty()
    } else {
        let rest = live_clients(cs.subrange(1, cs.len() as int), now);
        if expired_at(cs[0].status, cs[0].last_activity, now) {
            rest
        } else {
            seq![cs[0]] + rest
        }
    }
}

/// A sweep processes sessions front to back: appending one session at the
/// end appends its surviving part at the end.
pub proof fn lemma_live_clients_push(cs: Seq<ClientRecord>, c: ClientRecord, now: u64)
    ensures
        live_clients(cs.push(c), now) == if expired_at(c.status, c.last_activity, now) {
            live_clients(cs, now)
        } else {
            live_clients(cs, now).push(c)
        },
    decreases cs.len(),
{
    let cs2 = cs.push(c);
    if cs.len() == 0 {
        assert(cs2[0] == c);
        assert(cs2.subrange(1, cs2.len() as int) =~= Seq::<ClientRecord>::empty());
        assert(live_clients(Seq::<ClientRecord>::empty(), now) == Seq::<ClientRecord>::empty());
        if !expired_at(c.status, c.last_activity, now) {
            assert(live_clients(cs2, now) == seq![c] + Seq::<ClientRecord>::empty());
            assert(seq![c] + Seq::<ClientRecord>::empty() =~= live_clients(cs, now).push(c));
        } else {
            assert(live_clients(cs2, now) == live_clients(cs, now));
        }
    } else {
        let tail = cs.subrange(1, cs.len() as int);
        lemma_live_clients_push(tail, c, now);
        assert(cs2.subrange(1, cs2.len() as int) =~= tail.push(c));
        assert(cs2[0] == cs[0]);
        assert(live_clients(cs2.subrange(1, cs2.len() as int), now) == live_clients(
            tail.push(c),
            now,
        ));
        if expired_at(c.status, c.last_activity, now) {
            assert(live_clients(tail.push(c), now) == live_clients(tail, now));
            if expired_at(cs[0].status, cs[0].last_activity, now) {
                assert(live_clients(cs2, now) == live_clients(tail, now));
                assert(live_clients(cs, now) == live_clients(tail, now));
            } else {
                assert(live_clients(cs2, now) == seq![cs[0]] + live_clients(tail, now));
                assert(live_clients(cs, now) == seq![cs[0]] + live_clients(tail, now));
            }
        } else {
            assert(live_clients(tail.push(c), now) == live_clients(tail, now).push(c));
            if expired_at(cs[0].status, cs[0].last_activity, now) {
                assert(live_clients(cs2, now) == live_clients(tail, now).push(c));
                assert(live_clients(cs, now) == live_clients(tail, now));
            } else {
                assert(live_clients(cs2, now) == seq![cs[0]] + live_clients(tail, now).push(c));
                assert(live_clients(cs, now) == seq![cs[0]] + live_clients(tail, now));
                assert(seq![cs[0]] + live_clients(tail, now).push(c) =~= (seq![cs[0]]
                    + live_clients(tail, now)).push(c));
            }
        }
    }
}

/// What survives a sweep was in the table, was not expired, and the
/// surviving table is still well-formed.
pub proof fn lemma_live_clients_wf(cs: Seq<ClientRecord>, now: u64)
    requires
        wf_clients(cs),
    ensures
        wf_clients(live_clients(cs, now)),
        forall|a: int|
            0 <= a < live_clients(cs, now).len() ==> !expired_at(
                (#[trigger] live_clients(cs, now)[a]).status,
                live_clients(cs, now)[a].last_activity,
                now,
            ) && exists|b: int| 0 <= b < cs.len() && cs[b] == live_clients(cs, now)[a],
    decreases cs.len(),
{
    let live = live_clients(cs, now);
    if cs.len() > 0 {
        let tail = cs.subrange(1, cs.len() as int);
        lemma_wf_tail(cs);
        lemma_live_clients_wf(tail, now);
        let ltail = live_clients(tail, now);
        assert forall|a: int|
            0 <= a < ltail.len() implies exists|b: int|
                0 <= b < cs.len() && cs[b] == #[trigger] ltail[a] by {
            let b0 = choose|b: int| 0 <= b < tail.len() && tail[b] == ltail[a];
            assert(cs[b0 + 1] == ltail[a]);
        }
        if expired_at(cs[0].status, cs[0].last_activity, now) {
            assert(live == ltail);
        } else {
            assert(live == seq![cs[0]] + ltail);
            assert(live[0] == cs[0]);
            assert forall|i: int, j: int|
                0 <= i < j < live.len() implies #[trigger] key_of(live[i]) != #[trigger] key_of(
                live[j],
            ) by {
                if i == 0 {
                    let b = choose|b: int| 0 <= b < tail.len() && tail[b] == ltail[j - 1];
                    assert(cs[b + 1] == live[j]);
                    assert(key_of(cs[0]) != key_of(cs[b + 1]));
                } else {
                    assert(live[i] == ltail[i - 1] && live[j] == ltail[j - 1]);
                }
            }
        }
    }
}

/// A sweep removes only expired sessions, so sweeping what survived
/// changes nothing.
pub proof fn lemma_live_clients_stable(cs: Seq<ClientRecord>, now: u64)
    ensures
        live_clients(live_clients(cs, now), now) == live_clients(cs, now),
    decreases cs.len(),
{
    if cs.len() > 0 {
        let tail = cs.subrange(1, cs.len() as int);
        lemma_live_clients_stable(tail, now);
        let ltail = live_clients(tail, now);
        if expired_at(cs[0].status, cs[0].last_activity, now) {
        } else {
            let live = seq![cs[0]] + ltail;
            assert(live[0] == cs[0]);
            assert(live.subrange(1, live.len() as int) =~= ltail);
            assert(live_clients(live, now) == seq![cs[0]] + live_clients(ltail, now));
        }
    }
}

// ===========================================================================
// The store
// ===========================================================================

/// The mathematical contents of the store.
#[verifier::ext_equal]
pub struct StoreView {
    /// The session table, in insertion order.
    pub clients: Seq<ClientRecord>,
    /// The publisher slot.
    pub streamer: StreamerRecord,
    /// Whether challenges are rendered with the answer embedded.
    pub public_stream: bool,
}

/// One sweep of the whole store at time `now`: an expired publisher slot
/// resets everything; otherwise expired viewer sessions are dropped.
pub open spec fn swept(v: StoreView, now: u64) -> StoreView {
    if streamer_expired_at(v.streamer.status, v.streamer.last_activity, now) {
        StoreView { clients: Seq::empty(), streamer: idle_streamer(now), public_stream: false }
    } else {
        StoreView {
            clients: live_clients(v.clients, now),
            streamer: v.streamer,
            public_stream: v.public_stream,
        }
    }
}

/// The sweep is idempotent: with no intervening activity, sweeping twice
/// at the same time leaves exactly what one sweep leaves.
pub proof fn lemma_sweep_idempotent(v: StoreView, now: u64)
    ensures
        swept(swept(v, now), now) == swept(v, now),
{
    if streamer_expired_at(v.streamer.status, v.streamer.last_activity, now) {
        assert(swept(swept(v, now), now) =~= swept(v, now));
    } else {
        lemma_live_clients_stable(v.clients, now);
        assert(swept(swept(v, now), now) =~= swept(v, now));
    }
}

proof fn lemma_challenges_update(cs0: Seq<ClientRecord>, i: int, c2: ClientRecord)
    requires
        challenges_assigned(cs0),
        0 <= i < cs0.len(),
        c2.status == ClientStatus::Pending ==> c2.question@.len() > 0 && c2.answer@.len() > 0,
    ensures
        challenges_assigned(cs0.update(i, c2)),
{
    let cs1 = cs0.update(i, c2);
    assert forall|j: int|
        0 <= j < cs1.len() && (#[trigger] cs1[j]).status == ClientStatus::Pending implies cs1[j].question@.len()
        > 0 && cs1[j].answer@.len() > 0 by {
        if j != i {
            assert(cs1[j] == cs0[j]);
        }
    }
}

/// The stream locator built from an application and a stream name.
pub open spec fn locator_of(app: Seq<char>, stream: Seq<char>) -> Seq<char> {
    "app="@ + app + "&stream="@ + stream
}

/// Builds the locator string `app=<app>&stream=<stream>`.
pub fn build_locator(app: &str, stream: &str) -> (r: String)
    ensures
        r@ == locator_of(app@, stream@),
{
    let mut r = String::from_str("app=");
    r.append(app);
    r.append("&stream=");
    r.append(stream);
    r
}

/// The session and publisher store: the single mutable state of the engine.
pub struct SrsDatabaseInner {
    /// All viewer sessions, in insertion order, one per (identity, token).
    pub clients: Vec<ClientRecord>,
    /// The publisher slot.
    pub streamer: StreamerRecord,
    /// The secret verifier (remembers the key-file path).
    pub verifier: StreamerVerifier,
    /// When set, challenges are rendered with the answer embedded.
    pub public_stream: bool,
}

impl View for SrsDatabaseInner {
    type V = StoreView;

    open spec fn view(&self) -> StoreView {
        StoreView {
            clients: self.clients@,
            streamer: self.streamer,
            public_stream: self.public_stream,
        }
    }
}

impl SrsDatabaseInner {
    /// The session table has no duplicate keys.
    pub open spec fn wf(&self) -> bool {
        wf_clients(self.clients@)
    }

    /// An empty store whose verifier reads the given key file.
    pub fn new(secret_path: String, now: u64) -> (r: Self)
        ensures
            r.wf(),
            r@.clients.len() == 0,
            r@.streamer == idle_streamer(now),
            !r@.public_stream,
            r.verifier.secret_path == secret_path,
    {
        Self {
            clients: Vec::new(),
            streamer: StreamerRecord::new(now),
            verifier: StreamerVerifier::new(secret_path),
            public_stream: false,
        }
    }

    /// Clears every session and the publisher slot.
    pub fn reset(&mut self, now: u64)
        ensures
            final(self).wf(),
            final(self)@.clients.len() == 0,
            final(self)@.streamer == idle_streamer(now),
            !final(self)@.public_stream,
            final(self).verifier == old(self).verifier,
    {
        self.clients.clear();
        self.streamer = StreamerRecord::new(now);
        self.public_stream = false;
    }

    /// The index of the session with the given key, if any.
    fn find_client_idx(&self, ip: &str, session_id: &str) -> (r: Option<usize>)
        requires
            self.wf(),
        ensures
            match r {
                Some(i) => i < self.clients@.len() && key_of(self.clients@[i as int]) == (
                    ip@,
                    session_id@,
                ) && lookup(self.clients@, (ip@, session_id@)) == Some(self.clients@[i as int]),
                None => lookup(self.clients@, (ip@, session_id@)) is None,
            },
    {
        let n = self.clients.len();
        let mut i: usize = 0;
        while i < n
            invariant
                self.wf(),
                n == self.clients@.len(),
                i <= n,
                forall|j: int| 0 <= j < i ==> #[trigger] key_of(self.clients@[j]) != (ip@, session_id@),
            decreases n - i,
        {
            let c = &self.clients[i];
            if str_eq(c.ip.as_str(), ip) && str_eq(c.session_id.as_str(), session_id) {
                proof {
                    lemma_lookup_at(self.clients@, i as int);
                }
                return Some(i);
            }
            i += 1;
        }
        proof {
            lemma_lookup_complete(self.clients@, (ip@, session_id@));
            if lookup(self.clients@, (ip@, session_id@)) is Some {
                let c = lookup(self.clients@, (ip@, session_id@))->Some_0;
                let j = choose|j: int|
                    0 <= j < self.clients@.len() && self.clients@[j] == c && key_of(
                        self.clients@[j],
                    ) == (ip@, session_id@);
                assert(key_of(self.clients@[j]) != (ip@, session_id@));
            }
        }
        None
    }

    /// Whether a session with this key exists.
    pub fn has_client(&self, ip: &str, session_id: &str) -> (r: bool)
        requires
            self.wf(),
        ensures
            r == (lookup(self@.clients, (ip@, session_id@)) is Some),
    {
        self.find_client_idx(ip, session_id).is_some()
    }

    /// Whether a session with this key exists and may pull the stream.
    pub fn has_authorized_client(&self, ip: &str, session_id: &str) -> (r: bool)
        requires
            self.wf(),
        ensures
            r == match lookup(self@.clients, (ip@, session_id@)) {
                Some(c) => c.status.spec_is_authorized(),
                None => false,
            },
    {
        match self.find_client_idx(ip, session_id) {
            Some(i) => self.clients[i].status.is_authorized(),
            None => false,
        }
    }

    /// Inserts a fresh pending session for this key, replacing any session
    /// that already carried it.
    pub fn add_client(&mut self, ip: String, session_id: String, now: u64)
        requires
            old(self).wf(),
        ensures
            final(self).wf(),
            final(self).streamer == old(self).streamer,
            final(self).public_stream == old(self).public_stream,
            final(self).verifier == old(self).verifier,
            ({
                let c = lookup(final(self)@.clients, (ip@, session_id@));
                {
                    &&& c matches Some(c)
                    &&& c.ip@ == ip@
                    &&& c.session_id@ == session_id@
                    &&& c.question@.len() == 0
                    &&& c.answer@.len() == 0
                    &&& c.display_name is None
                    &&& !c.is_publisher
                    &&& c.created_at == now
                    &&& c.status == ClientStatus::Pending
                    &&& c.last_activity == now
                }
            }),
            forall|k2: (Seq<char>, Seq<char>)|
                k2 != (ip@, session_id@) ==> #[trigger] lookup(final(self)@.clients, k2) == lookup(
                    old(self)@.clients,
                    k2,
                ),
    {
        let ghost k = (ip@, session_id@);
        match self.find_client_idx(ip.as_str(), session_id.as_str()) {
            Some(i) => {
                let rec = ClientRecord::new(ip, session_id, now);
                proof {
                    lemma_lookup_update(self.clients@, i as int, rec);
                }
                self.clients[i] = rec;
            },
            None => {
                let rec = ClientRecord::new(ip, session_id, now);
                proof {
                    lemma_lookup_push(self.clients@, rec);
                }
                self.clients.push(rec);
            },
        }
    }

    /// Inserts a fresh pending session carrying a challenge, replacing
    /// any session that already carried the key: what a new viewer's
    /// first contact does, in one step.
    pub fn register_viewer(&mut self, ip: String, session_id: String, question: String, answer: String, now: u64)
        requires
            old(self).wf(),
        ensures
            final(self).wf(),
            final(self).streamer == old(self).streamer,
            final(self).public_stream == old(self).public_stream,
            final(self).verifier == old(self).verifier,
            ({
                let c = lookup(final(self)@.clients, (ip@, session_id@));
                {
                    &&& c matches Some(c)
                    &&& c.ip@ == ip@
                    &&& c.session_id@ == session_id@
                    &&& c.question == question
                    &&& c.answer == answer
                    &&& c.display_name is None
                    &&& !c.is_publisher
                    &&& c.created_at == now
                    &&& c.status == ClientStatus::Pending
                    &&& c.last_activity == now
                }
            }),
            forall|k2: (Seq<char>, Seq<char>)|
                k2 != (ip@, session_id@) ==> #[trigger] lookup(final(self)@.clients, k2) == lookup(
                    old(self)@.clients,
                    k2,
                ),
            challenges_assigned(old(self)@.clients) && question@.len() > 0 && answer@.len() > 0
                ==> challenges_assigned(final(self)@.clients),
    {
        let ghost k = (ip@, session_id@);
        let ghost cs0 = self.clients@;
        let rec = ClientRecord {
            ip,
            session_id,
            question,
            answer,
            display_name: None,
            is_publisher: false,
            created_at: now,
            status: ClientStatus::Pending,
            last_activity: now,
        };
        match self.find_client_idx(rec.ip.as_str(), rec.session_id.as_str()) {
            Some(i) => {
                proof {
                    lemma_lookup_update(cs0, i as int, rec);
                    if challenges_assigned(cs0) && rec.question@.len() > 0 && rec.answer@.len()
                        > 0 {
                        lemma_challenges_update(cs0, i as int, rec);
                    }
                }
                self.clients[i] = rec;
            },
            None => {
                proof {
                    lemma_lookup_push(cs0, rec);
                    if challenges_assigned(cs0) && rec.question@.len() > 0 && rec.answer@.len()
                        > 0 {
                        let cs1 = cs0.push(rec);
                        assert forall|j: int|
                            0 <= j < cs1.len() && (#[trigger] cs1[j]).status
                                == ClientStatus::Pending implies cs1[j].question@.len() > 0
                            && cs1[j].answer@.len() > 0 by {
                            if j < cs0.len() {
                                assert(cs1[j] == cs0[j]);
                            }
                        }
                    }
                }
                self.clients.push(rec);
            },
        }
    }

    /// The session with this key, if any.
    pub fn get_client(&self, ip: &str, session_id: &str) -> (r: Option<&ClientRecord>)
        requires
            self.wf(),
        ensures
            match r {
                Some(c) => lookup(self@.clients, (ip@, session_id@)) == Some(*c),
                None => lookup(self@.clients, (ip@, session_id@)) is None,
            },
    {
        match self.find_client_idx(ip, session_id) {
            Some(i) => Some(&self.clients[i]),
            None => None,
        }
    }

    /// Removes and returns the session with this key.
    pub fn remove_client(&mut self, ip: &str, session_id: &str) -> (r: Option<ClientRecord>)
        requires
            old(self).wf(),
        ensures
            final(self).wf(),
            final(self).streamer == old(self).streamer,
            final(self).public_stream == old(self).public_stream,
            final(self).verifier == old(self).verifier,
            r == lookup(old(self)@.clients, (ip@, session_id@)),
            lookup(final(self)@.clients, (ip@, session_id@)) is None,
            forall|k2: (Seq<char>, Seq<char>)|
                k2 != (ip@, session_id@) ==> #[trigger] lookup(final(self)@.clients, k2) == lookup(
                    old(self)@.clients,
                    k2,
                ),
            challenges_assigned(old(self)@.clients) ==> challenges_assigned(final(self)@.clients),
    {
        match self.find_client_idx(ip, session_id) {
            Some(i) => {
                proof {
                    lemma_lookup_remove(self.clients@, i as int);
                    assert forall|a: int|
                        0 <= a < self.clients@.remove(i as int).len() implies exists|b: int|
                            0 <= b < self.clients@.len() && self.clients@[b] == #[trigger] self.clients@.remove(i as int)[a] by {
                        if a < i {
                            assert(self.clients@.remove(i as int)[a] == self.clients@[a]);
                        } else {
                            assert(self.clients@.remove(i as int)[a] == self.clients@[a + 1]);
                        }
                    }
                }
                Some(self.clients.remove(i))
            },
            None => None,
        }
    }

    /// The question and answer assigned to this session.
    pub fn get_client_qa(&self, ip: &str, session_id: &str) -> (r: Option<(&str, &str)>)
        requires
            self.wf(),
        ensures
            match r {
                Some(qa) => lookup(self@.clients, (ip@, session_id@)) matches Some(c) && qa.0@
                    == c.question@ && qa.1@ == c.answer@,
                None => lookup(self@.clients, (ip@, session_id@)) is None,
            },
    {
        match self.find_client_idx(ip, session_id) {
            Some(i) => {
                let c = &self.clients[i];
                Some((c.question.as_str(), c.answer.as_str()))
            },
            None => None,
        }
    }

    /// Assigns a question and answer to this session, if it exists.
    pub fn set_client_qa(&mut self, ip: &str, session_id: &str, q: String, a: String)
        requires
            old(self).wf(),
        ensures
            final(self).wf(),
            final(self).streamer == old(self).streamer,
            final(self).public_stream == old(self).public_stream,
            final(self).verifier == old(self).verifier,
            match lookup(old(self)@.clients, (ip@, session_id@)) {
                Some(c0) => lookup(final(self)@.clients, (ip@, session_id@)) == Some(
                    ClientRecord { question: q, answer: a, ..c0 },
                ),
                None => final(self)@.clients == old(self)@.clients,
            },
            forall|k2: (Seq<char>, Seq<char>)|
                k2 != (ip@, session_id@) ==> #[trigger] lookup(final(self)@.clients, k2) == lookup(
                    old(self)@.clients,
                    k2,
                ),
            challenges_assigned(old(self)@.clients) && q@.len() > 0 && a@.len() > 0
                ==> challenges_assigned(final(self)@.clients),
    {
        match self.find_client_idx(ip, session_id) {
            Some(i) => {
                let ghost cs0 = self.clients@;
                let c = &mut self.clients[i];
                c.question = q;
                c.answer = a;
                proof {
                    let c2 = self.clients@[i as int];
                    assert(self.clients@ == cs0.update(i as int, c2));
                    lemma_lookup_update(cs0, i as int, c2);
                    if challenges_assigned(cs0) && c2.question@.len() > 0 && c2.answer@.len() > 0 {
                        lemma_challenges_update(cs0, i as int, c2);
                    }
                }
            },
            None => {},
        }
    }

    /// The display name of this session, if one was set.
    pub fn get_client_display_name(&self, ip: &str, session_id: &str) -> (r: Option<&str>)
        requires
            self.wf(),
        ensures
            match r {
                Some(n) => lookup(self@.clients, (ip@, session_id@)) matches Some(c)
                    && c.display_name matches Some(n0) && n@ == n0@,
                None => match lookup(self@.clients, (ip@, session_id@)) {
                    Some(c) => c.display_name is None,
                    None => true,
                },
            },
    {
        match self.find_client_idx(ip, session_id) {
            Some(i) => match &self.clients[i].display_name {
                Some(n) => Some(n.as_str()),
                None => None,
            },
            None => None,
        }
    }

    /// Sets the display name of this session, if it exists.
    pub fn set_client_display_name(&mut self, ip: &str, session_id: &str, name: String)
        requires
            old(self).wf(),
        ensures
            final(self).wf(),
            final(self).streamer == old(self).streamer,
            final(self).public_stream == old(self).public_stream,
            final(self).verifier == old(self).verifier,
            match lookup(old(self)@.clients, (ip@, session_id@)) {
                Some(c0) => lookup(final(self)@.clients, (ip@, session_id@)) == Some(
                    ClientRecord { display_name: Some(name), ..c0 },
                ),
                None => final(self)@.clients == old(self)@.clients,
            },
            forall|k2: (Seq<char>, Seq<char>)|
                k2 != (ip@, session_id@) ==> #[trigger] lookup(final(self)@.clients, k2) == lookup(
                    old(self)@.clients,
                    k2,
                ),
            challenges_assigned(old(self)@.clients) ==> challenges_assigned(final(self)@.clients),
    {
        match self.find_client_idx(ip, session_id) {
            Some(i) => {
                let ghost cs0 = self.clients@;
                let c = &mut self.clients[i];
                c.display_name = Some(name);
                proof {
                    let c2 = self.clients@[i as int];
                    assert(self.clients@ == cs0.update(i as int, c2));
                    lemma_lookup_update(cs0, i as int, c2);
                    if challenges_assigned(cs0) {
                        assert(cs0[i as int].status == c2.status);
                        lemma_challenges_update(cs0, i as int, c2);
                    }
                }
            },
            None => {},
        }
    }

    /// The status of this session, if it exists.
    pub fn get_client_status(&self, ip: &str, session_id: &str) -> (r: Option<ClientStatus>)
        requires
            self.wf(),
        ensures
            match r {
                Some(st) => lookup(self@.clients, (ip@, session_id@)) matches Some(c) && c.status
                    == st,
                None => lookup(self@.clients, (ip@, session_id@)) is None,
            },
    {
        match self.find_client_idx(ip, session_id) {
            Some(i) => Some(self.clients[i].status),
            None => None,
        }
    }

    /// Sets the status of this session and refreshes its activity clock.
    /// Returns false when no such session exists.
    pub fn update_client_activity(
        &mut self,
        ip: &str,
        session_id: &str,
        status: ClientStatus,
        now: u64,
    ) -> (r: bool)
        requires
            old(self).wf(),
        ensures
            final(self).wf(),
            final(self).streamer == old(self).streamer,
            final(self).public_stream == old(self).public_stream,
            final(self).verifier == old(self).verifier,
            r == (lookup(old(self)@.clients, (ip@, session_id@)) is Some),
            match lookup(old(self)@.clients, (ip@, session_id@)) {
                Some(c0) => lookup(final(self)@.clients, (ip@, session_id@)) == Some(
                    ClientRecord { status, last_activity: now, ..c0 },
                ),
                None => final(self)@.clients == old(self)@.clients,
            },
            forall|k2: (Seq<char>, Seq<char>)|
                k2 != (ip@, session_id@) ==> #[trigger] lookup(final(self)@.clients, k2) == lookup(
                    old(self)@.clients,
                    k2,
                ),
            challenges_assigned(old(self)@.clients) && status != ClientStatus::Pending
                ==> challenges_assigned(final(self)@.clients),
    {
        match self.find_client_idx(ip, session_id) {
            Some(i) => {
                let ghost cs0 = self.clients@;
                let c = &mut self.clients[i];
                c.status = status;
                c.last_activity = now;
                proof {
                    let c2 = self.clients@[i as int];
                    assert(self.clients@ == cs0.update(i as int, c2));
                    lemma_lookup_update(cs0, i as int, c2);
                    if challenges_assigned(cs0) && status != ClientStatus::Pending {
                        lemma_challenges_update(cs0, i as int, c2);
                    }
                }
                true
            },
            None => false,
        }
    }

    /// Marks this session as the publisher's delegate, if it exists.
    pub fn set_client_publisher(&mut self, ip: &str, session_id: &str)
        requires
            old(self).wf(),
        ensures
            final(self).wf(),
            final(self).streamer == old(self).streamer,
            final(self).public_stream == old(self).public_stream,
            final(self).verifier == old(self).verifier,
            match lookup(old(self)@.clients, (ip@, session_id@)) {
                Some(c0) => lookup(final(self)@.clients, (ip@, session_id@)) == Some(
                    ClientRecord { is_publisher: true, ..c0 },
                ),
                None => final(self)@.clients == old(self)@.clients,
            },
            forall|k2: (Seq<char>, Seq<char>)|
                k2 != (ip@, session_id@) ==> #[trigger] lookup(final(self)@.clients, k2) == lookup(
                    old(self)@.clients,
                    k2,
                ),
            challenges_assigned(old(self)@.clients) ==> challenges_assigned(final(self)@.clients),
    {
        match self.find_client_idx(ip, session_id) {
            Some(i) => {
                let ghost cs0 = self.clients@;
                let c = &mut self.clients[i];
                c.is_publisher = true;
                proof {
                    let c2 = self.clients@[i as int];
                    assert(self.clients@ == cs0.update(i as int, c2));
                    lemma_lookup_update(cs0, i as int, c2);
                    if challenges_assigned(cs0) {
                        assert(cs0[i as int].status == c2.status);
                        lemma_challenges_update(cs0, i as int, c2);
                    }
                }
            },
            None => {},
        }
    }

    /// Whether this session is the publisher's delegate.
    pub fn client_is_publisher(&self, ip: &str, session_id: &str) -> (r: bool)
        requires
            self.wf(),
        ensures
            r == match lookup(self@.clients, (ip@, session_id@)) {
                Some(c) => c.is_publisher,
                None => false,
            },
    {
        match self.find_client_idx(ip, session_id) {
            Some(i) => self.clients[i].is_publisher,
            None => false,
        }
    }

    /// The identity and status of the first session carrying this token,
    /// under any identity.
    pub fn get_client_status_any_ip(&self, session_id: &str) -> (r: Option<(String, ClientStatus)>)
        ensures
            match r {
                Some(p) => lookup_sid(self@.clients, session_id@) matches Some(c) && p.0@ == c.ip@
                    && p.1 == c.status,
                None => lookup_sid(self@.clients, session_id@) is None,
            },
    {
        let n = self.clients.len();
        let mut i: usize = 0;
        while i < n
            invariant
                n == self.clients@.len(),
                i <= n,
                forall|j: int| 0 <= j < i ==> (#[trigger] self.clients@[j]).session_id@ != session_id@,
            decreases n - i,
        {
            let c = &self.clients[i];
            if str_eq(c.session_id.as_str(), session_id) {
                proof {
                    lemma_lookup_sid_prefix(self.clients@, session_id@, i as int);
                    assert(self.clients@.subrange(i as int, n as int)[0] == self.clients@[i as int]);
                }
                return Some((c.ip.clone(), c.status));
            }
            i += 1;
        }
        proof {
            lemma_lookup_sid_prefix(self.clients@, session_id@, n as int);
            assert(self.clients@.subrange(n as int, n as int) =~= Seq::<ClientRecord>::empty());
        }
        None
    }

    // =======================================================================
    // Publisher slot
    // =======================================================================

    /// Whether a broadcast is underway (live or interrupted).
    pub fn is_streaming(&self) -> (r: bool)
        ensures
            r == (self.streamer.status != StreamerStatus::Standby),
    {
        !matches!(self.streamer.status, StreamerStatus::Standby)
    }

    /// Whether a broadcast is live right now.
    pub fn is_actively_streaming(&self) -> (r: bool)
        ensures
            r == (self.streamer.status == StreamerStatus::Streaming),
    {
        matches!(self.streamer.status, StreamerStatus::Streaming)
    }

    /// The stream locator, when one is set.
    pub fn get_stream_uri(&self) -> (r: Option<&str>)
        ensures
            match r {
                Some(u) => self.streamer.stream_uri matches Some(u0) && u@ == u0@,
                None => self.streamer.stream_uri is None,
            },
    {
        match &self.streamer.stream_uri {
            Some(u) => Some(u.as_str()),
            None => None,
        }
    }

    /// The room label, when one is set.
    pub fn get_stream_name(&self) -> (r: Option<&str>)
        ensures
            match r {
                Some(u) => self.streamer.stream_name matches Some(u0) && u@ == u0@,
                None => self.streamer.stream_name is None,
            },
    {
        match &self.streamer.stream_name {
            Some(u) => Some(u.as_str()),
            None => None,
        }
    }

    /// Sets the room label.
    pub fn set_stream_name(&mut self, name: String)
        ensures
            final(self).streamer == (StreamerRecord {
                stream_name: Some(name),
                ..old(self).streamer
            }),
            final(self).clients == old(self).clients,
            final(self).public_stream == old(self).public_stream,
            final(self).verifier == old(self).verifier,
    {
        self.streamer.stream_name = Some(name);
    }

    /// Checks a push secret against the key file's contents.
    pub fn verify_streamer(&self, secret: &str, key_file: &str) -> (r: bool)
        ensures
            r == has_token(key_file@, secret@),
    {
        self.verifier.authorize(key_file, secret)
    }

    /// Starts a new broadcast: stores the verified secret, the source
    /// address and the locator, and marks the slot live.  A new
    /// broadcast invalidates every prior viewer grant, so the session
    /// table is cleared and the self-service bypass switched off.
    pub fn register_streamer(&mut self, ip: String, secret: String, app: &str, stream: &str, now: u64)
        ensures
            final(self).wf(),
            final(self).streamer.ip == Some(ip),
            final(self).streamer.secret == Some(secret),
            final(self).streamer.session_id == old(self).streamer.session_id,
            final(self).streamer.stream_uri matches Some(u) && u@ == locator_of(app@, stream@),
            final(self).streamer.stream_name == old(self).streamer.stream_name,
            final(self).streamer.status == StreamerStatus::Streaming,
            final(self).streamer.last_activity == now,
            final(self)@.clients.len() == 0,
            !final(self).public_stream,
            challenges_assigned(final(self)@.clients),
            final(self).verifier == old(self).verifier,
    {
        self.clients.clear();
        self.public_stream = false;
        self.streamer.ip = Some(ip);
        self.streamer.secret = Some(secret);
        self.streamer.stream_uri = Some(build_locator(app, stream));
        self.streamer.status = StreamerStatus::Streaming;
        self.streamer.last_activity = now;
    }

    /// Binds a viewer session token to the publisher, provided the
    /// presented secret equals the slot's stored secret.
    pub fn connect_streamer(&mut self, session_id: String, secret: &str) -> (r: bool)
        ensures
            r == (old(self).streamer.secret matches Some(s) && s@ == secret@),
            r ==> final(self).streamer == (StreamerRecord {
                session_id: Some(session_id),
                ..old(self).streamer
            }),
            !r ==> *final(self) == *old(self),
            final(self).clients == old(self).clients,
            final(self).public_stream == old(self).public_stream,
            final(self).verifier == old(self).verifier,
    {
        let matched = match &self.streamer.secret {
            Some(s) => str_eq(s.as_str(), secret),
            None => false,
        };
        if matched {
            self.streamer.session_id = Some(session_id);
            true
        } else {
            false
        }
    }

    /// Marks a live broadcast as interrupted; does nothing in any other
    /// state.
    pub fn pause_streaming(&mut self, now: u64)
        ensures
            old(self).streamer.status == StreamerStatus::Streaming ==> final(self).streamer == (
            StreamerRecord {
                status: StreamerStatus::Pausing,
                last_activity: now,
                ..old(self).streamer
            }),
            old(self).streamer.status != StreamerStatus::Streaming ==> *final(self) == *old(self),
            final(self).clients == old(self).clients,
            final(self).public_stream == old(self).public_stream,
            final(self).verifier == old(self).verifier,
    {
        if matches!(self.streamer.status, StreamerStatus::Streaming) {
            self.streamer.status = StreamerStatus::Pausing;
            self.streamer.last_activity = now;
        }
    }

    /// Resumes a broadcast: succeeds exactly when the presented secret
    /// equals the slot's stored secret, whatever the key file now holds.
    pub fn resume_streaming(&mut self, ip: String, secret: &str, app: &str, stream: &str, now: u64) -> (r:
        bool)
        ensures
            r == (old(self).streamer.secret matches Some(s) && s@ == secret@),
            r ==> final(self).streamer.ip == Some(ip),
            r ==> (final(self).streamer.stream_uri matches Some(u) && u@ == locator_of(
                app@,
                stream@,
            )),
            r ==> final(self).streamer.status == StreamerStatus::Streaming,
            r ==> final(self).streamer.last_activity == now,
            r ==> final(self).streamer.secret == old(self).streamer.secret,
            r ==> final(self).streamer.session_id == old(self).streamer.session_id,
            r ==> final(self).streamer.stream_name == old(self).streamer.stream_name,
            !r ==> *final(self) == *old(self),
            final(self).clients == old(self).clients,
            final(self).public_stream == old(self).public_stream,
            final(self).verifier == old(self).verifier,
    {
        let matched = match &self.streamer.secret {
            Some(s) => str_eq(s.as_str(), secret),
            None => false,
        };
        if matched {
            self.streamer.ip = Some(ip);
            self.streamer.stream_uri = Some(build_locator(app, stream));
            self.streamer.status = StreamerStatus::Streaming;
            self.streamer.last_activity = now;
            true
        } else {
            false
        }
    }

    /// Frees the publisher slot: succeeds exactly when the requesting
    /// token equals the slot's bound session token; any other caller
    /// leaves the slot unchanged.
    pub fn end_streaming(&mut self, session_id: Option<&str>, now: u64) -> (r: bool)
        ensures
            r == (session_id matches Some(s) && old(self).streamer.session_id matches Some(t) && t@
                == s@),
            r ==> final(self).streamer == idle_streamer(now),
            !r ==> *final(self) == *old(self),
            final(self).clients == old(self).clients,
            final(self).public_stream == old(self).public_stream,
            final(self).verifier == old(self).verifier,
    {
        let matched = match (session_id, &self.streamer.session_id) {
            (Some(s), Some(t)) => str_eq(t.as_str(), s),
            _ => false,
        };
        if matched {
            self.streamer = StreamerRecord::new(now);
            true
        } else {
            false
        }
    }

    /// Switches the self-service bypass on or off.
    pub fn set_public(&mut self, public: bool)
        ensures
            final(self).public_stream == public,
            final(self).clients == old(self).clients,
            final(self).streamer == old(self).streamer,
            final(self).verifier == old(self).verifier,
    {
        self.public_stream = public;
    }

    /// Whether the self-service bypass is on.
    pub fn is_public(&self) -> (r: bool)
        ensures
            r == self.public_stream,
    {
        self.public_stream
    }

    // =======================================================================
    // The sweep
    // =======================================================================

    /// One sweep at time `now`: an expired publisher slot resets the whole
    /// store; otherwise every expired viewer session is removed.
    pub fn tick(&mut self, now: u64)
        requires
            old(self).wf(),
        ensures
            final(self).wf(),
            final(self)@ == swept(old(self)@, now),
            final(self).verifier == old(self).verifier,
            challenges_assigned(old(self)@.clients) ==> challenges_assigned(final(self)@.clients),
    {
        if self.streamer.is_expired(now) {
            self.reset(now);
            proof {
                assert(self@ =~= swept(old(self)@, now));
            }
            return ;
        }
        let ghost orig = self.clients@;
        let mut p_exec: Ghost<int> = Ghost(0);
        let mut i: usize = 0;
        proof {
            assert(orig.subrange(0, orig.len() as int) =~= orig);
            assert(live_clients(orig.subrange(0, 0), now) =~= Seq::<ClientRecord>::empty());
            assert(self.clients@ =~= live_clients(orig.subrange(0, 0), now) + orig.subrange(
                0,
                orig.len() as int,
            ));
        }
        while i < self.clients.len()
            invariant
                wf_clients(orig),
                0 <= p_exec@ <= orig.len(),
                i == live_clients(orig.subrange(0, p_exec@), now).len(),
                self.clients@ == live_clients(orig.subrange(0, p_exec@), now) + orig.subrange(
                    p_exec@,
                    orig.len() as int,
                ),
                self.streamer == old(self).streamer,
                self.public_stream == old(self).public_stream,
                self.verifier == old(self).verifier,
            decreases orig.len() - p_exec@,
        {
            let ghost pp = p_exec@;
            let ghost prefix = orig.subrange(0, pp);
            let ghost live_prefix = live_clients(prefix, now);
            proof {
                assert(pp < orig.len());
                assert(self.clients@[i as int] == orig.subrange(pp, orig.len() as int)[0]);
                assert(self.clients@[i as int] == orig[pp]);
                assert(orig.subrange(0, pp + 1) =~= prefix.push(orig[pp]));
                lemma_live_clients_push(prefix, orig[pp], now);
            }
            let expired = self.clients[i].is_expired(now);
            if expired {
                self.clients.remove(i);
                proof {
                    assert(self.clients@ =~= live_clients(orig.subrange(0, pp + 1), now)
                        + orig.subrange(pp + 1, orig.len() as int));
                }
            } else {
                i += 1;
                proof {
                    assert(live_clients(orig.subrange(0, pp + 1), now) == live_prefix.push(
                        orig[pp],
                    ));
                    assert(self.clients@ =~= live_clients(orig.subrange(0, pp + 1), now)
                        + orig.subrange(pp + 1, orig.len() as int));
                }
            }
            p_exec = Ghost(pp + 1);
        }
        proof {
            assert(p_exec@ == orig.len());
            assert(orig.subrange(0, orig.len() as int) =~= orig);
            assert(orig.subrange(orig.len() as int, orig.len() as int) =~= Seq::<
                ClientRecord,
            >::empty());
            assert(self.clients@ =~= live_clients(orig, now));
            lemma_live_clients_wf(orig, now);
            assert(self@ =~= swept(old(self)@, now));
            if challenges_assigned(orig) {
                let live = live_clients(orig, now);
                assert forall|j: int|
                    0 <= j < live.len() && (#[trigger] live[j]).status == ClientStatus::Pending implies live[j].question@.len()
                    > 0 && live[j].answer@.len() > 0 by {
                    let b = choose|b: int| 0 <= b < orig.len() && orig[b] == live[j];
                    assert(orig[b].status == ClientStatus::Pending);
                }
            }
        }
    }
}

/// The first session carrying the given token, under any identity.
pub open spec fn lookup_sid(cs: Seq<ClientRecord>, sid: Seq<char>) -> Option<ClientRecord>
    decreases cs.len(),
{
    if cs.len() == 0 {
        None
    } else if cs[0].session_id@ == sid {
        Some(cs[0])
    } else {
        lookup_sid(cs.subrange(1, cs.len() as int), sid)
    }
}

/// Scanning past sessions that do not carry the token does not change
/// what `lookup_sid` finds.
pub proof fn lemma_lookup_sid_prefix(cs: Seq<ClientRecord>, sid: Seq<char>, i: int)
    requires
        0 <= i <= cs.len(),
        forall|j: int| 0 <= j < i ==> (#[trigger] cs[j]).session_id@ != sid,
    ensures
        lookup_sid(cs, sid) == lookup_sid(cs.subrange(i, cs.len() as int), sid),
    decreases i,
{
    if i > 0 {
        let tail = cs.subrange(1, cs.len() as int);
        assert forall|j: int| 0 <= j < i - 1 implies (#[trigger] tail[j]).session_id@ != sid by {
            assert(tail[j] == cs[j + 1]);
        }
        lemma_lookup_sid_prefix(tail, sid, i - 1);
        assert(tail.subrange(i - 1, tail.len() as int) =~= cs.subrange(i, cs.len() as int));
    } else {
        assert(cs.subrange(0, cs.len() as int) =~= cs);
    }
}

/// A session found by token alone is the same session `lookup` finds
/// under its full key.
pub proof fn lemma_lookup_sid_in_table(cs: Seq<ClientRecord>, sid: Seq<char>)
    requires
        wf_clients(cs),
    ensures
        lookup_sid(cs, sid) matches Some(c) ==> lookup(cs, (c.ip@, sid)) == Some(c)
            && c.session_id@ == sid,
    decreases cs.len(),
{
    if cs.len() > 0 {
        if cs[0].session_id@ == sid {
            lemma_lookup_at(cs, 0);
        } else {
            let tail = cs.subrange(1, cs.len() as int);
            lemma_wf_tail(cs);
            lemma_lookup_sid_in_table(tail, sid);
            if lookup_sid(tail, sid) is Some {
                let c = lookup_sid(tail, sid)->Some_0;
                assert(key_of(cs[0]) != (c.ip@, sid));
            }
        }
    }
}

} // verus!
