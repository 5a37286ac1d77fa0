//! Callbacks from the media server: publish, play, unpublish and stop
//! events, each decided against the store.

use vstd::prelude::*;
use crate::chat::ChatDatabaseInner;
use crate::srs::{SrsDatabaseInner, lookup, lookup_sid, challenges_assigned, has_token, locator_of};
use crate::status::{ClientStatus, StreamerStatus};
use crate::text::{str_eq, first_index_of, lemma_first_index_of};

verus! {

/// What a callback carries.
#[derive(Debug)]
pub struct SrsCallbackRequest {
    /// The event: `on_publish`, `on_play`, `on_unpublish` or `on_stop`.
    pub action: String,
    /// The address the event came from.
    pub ip: String,
    /// The application part of the stream location.
    pub app: String,
    /// The stream name part of the stream location.
    pub stream: String,
    /// The query string carrying `secret`, `session_id` and the like.
    pub param: String,
    /// The connection URL; carried but unused.
    pub tc_url: String,
}

/// Whether the engine lets the event proceed.
#[derive(Debug, Clone, Copy, PartialEq, Eq, Structural)]
pub enum SrsDecision {
    /// The event is allowed.
    Accept,
    /// The event is refused.
    Reject,
}

// ===========================================================================
// Query-string parsing
// ===========================================================================

/// A query value is cut at the first stray `?`.
pub open spec fn value_part(v: Seq<char>) -> Seq<char> {
    match first_index_of(v, '?') {
        Some(i) => v.subrange(0, i),
        None => v,
    }
}

/// The pair a single `key=value` segment contributes; a segment without
/// `=` contributes nothing.
pub open spec fn parse_segment(seg: Seq<char>) -> Seq<(Seq<char>, Seq<char>)> {
    match first_index_of(seg, '=') {
        Some(i) => seq![(seg.subrange(0, i), value_part(seg.subrange(i + 1, seg.len() as int)))],
        None => Seq::empty(),
    }
}

/// The pairs of an `&`-separated query string, in order.
pub open spec fn param_pairs(s: Seq<char>) -> Seq<(Seq<char>, Seq<char>)>
    decreases s.len(),
{
    match first_index_of(s, '&') {
        Some(i) => if 0 <= i < s.len() {
            parse_segment(s.subrange(0, i)) + param_pairs(s.subrange(i + 1, s.len() as int))
        } else {
            parse_segment(s)
        },
        None => parse_segment(s),
    }
}

/// The query string with a leading `?` removed.
pub open spec fn strip_query(s: Seq<char>) -> Seq<char> {
    if s.len() > 0 && s[0] == '?' {
        s.subrange(1, s.len() as int)
    } else {
        s
    }
}

/// The views of parsed pairs.
pub open spec fn pairs_of(v: Seq<(String, String)>) -> Seq<(Seq<char>, Seq<char>)> {
    v.map_values(|p: (String, String)| (p.0@, p.1@))
}

/// The value of the last pair carrying `key`, mirroring a map that later
/// inserts overwrite.
pub open spec fn pairs_lookup(ps: Seq<(Seq<char>, Seq<char>)>, key: Seq<char>) -> Option<
    Seq<char>,
>
    decreases ps.len(),
{
    if ps.len() == 0 {
        None
    } else if ps.last().0 == key {
        Some(ps.last().1)
    } else {
        pairs_lookup(ps.drop_last(), key)
    }
}

/// The value the query string assigns to `key`, if any.
pub open spec fn param_of(s: Seq<char>, key: Seq<char>) -> Option<Seq<char>> {
    pairs_lookup(param_pairs(strip_query(s)), key)
}

fn parse_segment_into(seg: &str, out: &mut Vec<(String, String)>)
    ensures
        pairs_of(final(out)@) == pairs_of(old(out)@) + parse_segment(seg@),
{
    let n = seg.unicode_len();
    match crate::text::find_char(seg, '=') {
        Some(i) => {
            proof {
                lemma_first_index_of(seg@, '=');
            }
            let key = seg.substring_char(0, i);
            let rest = seg.substring_char(i + 1, n);
            let value = match crate::text::find_char(rest, '?') {
                Some(j) => {
                    proof {
                        lemma_first_index_of(rest@, '?');
                    }
                    rest.substring_char(0, j)
                },
                None => rest,
            };
            let ghost out0 = out@;
            out.push((String::from_str(key), String::from_str(value)));
            proof {
                assert(pairs_of(out@) =~= pairs_of(out0) + parse_segment(seg@));
            }
        },
        None => {
            proof {
                assert(pairs_of(out@) =~= pairs_of(out@) + parse_segment(seg@));
            }
        },
    }
}

#[verifier::rlimit(50)]
#[verifier::spinoff_prover]
fn parse_pairs_into(s: &str, out: &mut Vec<(String, String)>)
    ensures
        pairs_of(final(out)@) == pairs_of(old(out)@) + param_pairs(s@),
    decreases s@.len(),
{
    let n = s.unicode_len();
    match crate::text::find_char(s, '&') {
        Some(i) => {
            proof {
                lemma_first_index_of(s@, '&');
            }
            let head = s.substring_char(0, i);
            let tail = s.substring_char(i + 1, n);
            let ghost out0 = out@;
            parse_segment_into(head, out);
            parse_pairs_into(tail, out);
            proof {
                assert(pairs_of(out@) =~= pairs_of(out0) + param_pairs(s@));
            }
        },
        None => {
            parse_segment_into(s, out);
        },
    }
}

/// Parses a query string such as `?secret=x&rid=y` into its key/value
/// pairs, in order.
pub fn parse_param(param: &str) -> (r: Vec<(String, String)>)
    ensures
        pairs_of(r@) == param_pairs(strip_query(param@)),
{
    let n = param.unicode_len();
    let stripped: &str = if n > 0 && param.get_char(0) == '?' {
        param.substring_char(1, n)
    } else {
        param
    };
    let mut out: Vec<(String, String)> = Vec::new();
    proof {
        assert(pairs_of(out@) =~= Seq::<(Seq<char>, Seq<char>)>::empty());
    }
    parse_pairs_into(stripped, &mut out);
    proof {
        assert(Seq::<(Seq<char>, Seq<char>)>::empty() + param_pairs(stripped@) =~= param_pairs(
            stripped@,
        ));
    }
    out
}

/// The value stored under `key`, later pairs winning.
pub fn param_get<'a>(pairs: &'a Vec<(String, String)>, key: &str) -> (r: Option<&'a String>)
    ensures
        match r {
            Some(v) => pairs_lookup(pairs_of(pairs@), key@) == Some(v@),
            None => pairs_lookup(pairs_of(pairs@), key@) is None,
        },
{
    let n = pairs.len();
    let mut i: usize = n;
    proof {
        assert(pairs_of(pairs@).subrange(0, n as int) =~= pairs_of(pairs@));
    }
    while i > 0
        invariant
            n == pairs@.len(),
            i <= n,
            pairs_lookup(pairs_of(pairs@), key@) == pairs_lookup(
                pairs_of(pairs@).subrange(0, i as int),
                key@,
            ),
        decreases i,
    {
        i -= 1;
        let p = &pairs[i];
        proof {
            assert(pairs_of(pairs@).subrange(0, i + 1).last() == (pairs@[i as int].0@, pairs@[
                i as int].1@));
            assert(pairs_of(pairs@).subrange(0, i + 1).drop_last() =~= pairs_of(
                pairs@,
            ).subrange(0, i as int));
        }
        if str_eq(p.0.as_str(), key) {
            return Some(&p.1);
        }
    }
    proof {
        assert(pairs_of(pairs@).subrange(0, 0) =~= Seq::<(Seq<char>, Seq<char>)>::empty());
    }
    None
}

/// The session token a callback identifies its viewer by: `session_id`
/// when given, else `rid`, else empty.
pub open spec fn callback_sid(p: Seq<char>) -> Seq<char> {
    match param_of(p, "session_id"@) {
        Some(s) => s,
        None => match param_of(p, "rid"@) {
            Some(s) => s,
            None => Seq::empty(),
        },
    }
}

/// Extracts the viewer token of a callback.
pub fn callback_session_id(pairs: &Vec<(String, String)>, param: &str) -> (r: String)
    requires
        pairs_of(pairs@) == param_pairs(strip_query(param@)),
    ensures
        r@ == callback_sid(param@),
{
    proof {
        reveal_strlit("session_id");
        reveal_strlit("rid");
    }
    match param_get(pairs, "session_id") {
        Some(s) => s.clone(),
        None => match param_get(pairs, "rid") {
            Some(s) => s.clone(),
            None => String::new(),
        },
    }
}

/// Handles a publish event: a new broadcast must present a secret from
/// the key file; while a broadcast is underway, only the same secret may
/// resume it.  A fresh broadcast invalidates every prior viewer grant
/// and clears the chat log.
pub fn handle_on_publish(
    store: &mut SrsDatabaseInner,
    chat: &mut ChatDatabaseInner,
    req: &SrsCallbackRequest,
    key_file: &str,
    now: u64,
) -> (r: SrsDecision)
    requires
        old(store).wf(),
        old(chat).wf(),
    ensures
        final(store).wf(),
        final(chat).wf(),
        final(store).verifier == old(store).verifier,
        challenges_assigned(old(store)@.clients) ==> challenges_assigned(final(store)@.clients),
        ({
            let sec = param_of(req.param@, "secret"@);
            {
                &&& (sec is None ==> *final(store) == *old(store) && crate::api::chat_unchanged(
                    *old(chat),
                    *final(chat),
                ) && r == SrsDecision::Reject)
                &&& ((sec is Some && old(store).streamer.status != StreamerStatus::Standby) ==> {
                    &&& crate::api::chat_unchanged(*old(chat), *final(chat))
                    &&& final(store).clients == old(store).clients
                    &&& (r == SrsDecision::Accept <==> (old(store).streamer.secret is Some && old(
                        store,
                    ).streamer.secret->Some_0@ == sec->Some_0))
                    &&& (r == SrsDecision::Reject ==> *final(store) == *old(store))
                    &&& (r == SrsDecision::Accept ==> {
                        &&& final(store).streamer.status == StreamerStatus::Streaming
                        &&& final(store).streamer.last_activity == now
                        &&& final(store).streamer.ip matches Some(i) && i@ == req.ip@
                        &&& final(store).streamer.stream_uri matches Some(u) && u@ == locator_of(
                            req.app@,
                            req.stream@,
                        )
                        &&& final(store).streamer.secret == old(store).streamer.secret
                        &&& final(store).streamer.session_id == old(store).streamer.session_id
                        &&& final(store).public_stream == old(store).public_stream
                    })
                })
                &&& ((sec is Some && old(store).streamer.status == StreamerStatus::Standby) ==> {
                    &&& (r == SrsDecision::Accept <==> has_token(key_file@, sec->Some_0))
                    &&& (r == SrsDecision::Reject ==> *final(store) == *old(store)
                        && crate::api::chat_unchanged(*old(chat), *final(chat)))
                    &&& (r == SrsDecision::Accept ==> {
                        &&& final(store).streamer.status == StreamerStatus::Streaming
                        &&& final(store).streamer.last_activity == now
                        &&& final(store).streamer.ip matches Some(i) && i@ == req.ip@
                        &&& final(store).streamer.secret matches Some(s) && s@ == sec->Some_0
                        &&& final(store).streamer.stream_uri matches Some(u) && u@ == locator_of(
                            req.app@,
                            req.stream@,
                        )
                        // a fresh broadcast starts with no viewer grants and
                        // the bypass off unless the event switches it on
                        &&& final(store)@.clients.len() == 0
                        &&& final(store).public_stream == (match param_of(
                            req.param@,
                            "public"@,
                        ) {
                            Some(v) => is_true_ci(v),
                            None => false,
                        })
                        &&& final(chat).messages@.len() == 0
                        &&& final(chat).clients@.len() == 0
                    })
                })
            }
        }),
{
    proof {
        reveal_strlit("secret");
        reveal_strlit("public");
    }
    let queries = parse_param(req.param.as_str());
    let secret = match param_get(&queries, "secret") {
        Some(s) => s.clone(),
        None => {
            return SrsDecision::Reject;
        },
    };
    if store.is_streaming() {
        if store.resume_streaming(
            req.ip.clone(),
            secret.as_str(),
            req.app.as_str(),
            req.stream.as_str(),
            now,
        ) {
            SrsDecision::Accept
        } else {
            SrsDecision::Reject
        }
    } else {
        if store.verify_streamer(secret.as_str(), key_file) {
            store.register_streamer(
                req.ip.clone(),
                secret,
                req.app.as_str(),
                req.stream.as_str(),
                now,
            );
            match param_get(&queries, "public") {
                Some(v) => {
                    let flag = str_is_true_ci(v.as_str());
                    store.set_public(flag);
                },
                None => {},
            }
            chat.reset();
            SrsDecision::Accept
        } else {
            SrsDecision::Reject
        }
    }
}

/// Handles a play event: only a session that answered its challenge may
/// pull the stream; its status becomes playing.
pub fn handle_on_play(store: &mut SrsDatabaseInner, req: &SrsCallbackRequest, now: u64) -> (r:
    SrsDecision)
    requires
        old(store).wf(),
    ensures
        final(store).wf(),
        final(store).streamer == old(store).streamer,
        final(store).public_stream == old(store).public_stream,
        final(store).verifier == old(store).verifier,
        challenges_assigned(old(store)@.clients) ==> challenges_assigned(final(store)@.clients),
        ({
            let sid = callback_sid(req.param@);
            let found = lookup_sid(old(store)@.clients, sid);
            let c = found->Some_0;
            {
                &&& (found is None ==> final(store)@ == old(store)@ && r == SrsDecision::Reject)
                &&& ((found is Some && (c.status == ClientStatus::Pending || c.status
                    == ClientStatus::Nil)) ==> final(store)@ == old(store)@ && r
                    == SrsDecision::Reject)
                &&& ((found is Some && !(c.status == ClientStatus::Pending || c.status
                    == ClientStatus::Nil)) ==> {
                    &&& r == SrsDecision::Accept
                    &&& lookup(final(store)@.clients, (c.ip@, sid)) == Some(
                        crate::srs::ClientRecord {
                            status: ClientStatus::Playing,
                            last_activity: now,
                            ..lookup(old(store)@.clients, (c.ip@, sid))->Some_0
                        },
                    )
                    &&& (forall|k2: (Seq<char>, Seq<char>)|
                        k2 != (c.ip@, sid) ==> #[trigger] lookup(final(store)@.clients, k2)
                            == lookup(old(store)@.clients, k2))
                })
            }
        }),
{
    let queries = parse_param(req.param.as_str());
    let session_id = callback_session_id(&queries, req.param.as_str());
    match store.get_client_status_any_ip(session_id.as_str()) {
        None => SrsDecision::Reject,
        Some((client_ip, status)) => {
            if matches!(status, ClientStatus::Pending) || matches!(status, ClientStatus::Nil) {
                SrsDecision::Reject
            } else {
                proof {
                    crate::srs::lemma_lookup_sid_in_table(old(store)@.clients, session_id@);
                }
                store.update_client_activity(
                    client_ip.as_str(),
                    session_id.as_str(),
                    ClientStatus::Playing,
                    now,
                );
                SrsDecision::Accept
            }
        },
    }
}

/// Handles an unpublish event: a live broadcast becomes interrupted;
/// anything else is left alone.  Always accepted.
pub fn handle_on_unpublish(store: &mut SrsDatabaseInner, now: u64) -> (r: SrsDecision)
    requires
        old(store).wf(),
    ensures
        final(store).wf(),
        r == SrsDecision::Accept,
        final(store).clients == old(store).clients,
        final(store).public_stream == old(store).public_stream,
        final(store).verifier == old(store).verifier,
        old(store).streamer.status == StreamerStatus::Streaming ==> final(store).streamer == (
        crate::srs::StreamerRecord {
            status: StreamerStatus::Pausing,
            last_activity: now,
            ..old(store).streamer
        }),
        old(store).streamer.status != StreamerStatus::Streaming ==> final(store).streamer == old(
            store,
        ).streamer,
        challenges_assigned(old(store)@.clients) ==> challenges_assigned(final(store)@.clients),
{
    store.pause_streaming(now);
    SrsDecision::Accept
}

/// Handles a stop event: an authorized session becomes dormant; an
/// unknown or unauthorized one is left alone.  Always accepted.
pub fn handle_on_stop(store: &mut SrsDatabaseInner, req: &SrsCallbackRequest, now: u64) -> (r:
    SrsDecision)
    requires
        old(store).wf(),
    ensures
        final(store).wf(),
        r == SrsDecision::Accept,
        final(store).streamer == old(store).streamer,
        final(store).public_stream == old(store).public_stream,
        final(store).verifier == old(store).verifier,
        challenges_assigned(old(store)@.clients) ==> challenges_assigned(final(store)@.clients),
        ({
            let sid = callback_sid(req.param@);
            let k = (req.ip@, sid);
            let pre = lookup(old(store)@.clients, k);
            let c = pre->Some_0;
            let authorized = pre is Some && c.status.spec_is_authorized();
            {
                &&& (!authorized ==> final(store)@ == old(store)@)
                &&& (authorized ==> lookup(final(store)@.clients, k) == Some(
                    crate::srs::ClientRecord {
                        status: ClientStatus::Resting,
                        last_activity: now,
                        ..c
                    },
                ) && (forall|k2: (Seq<char>, Seq<char>)|
                    k2 != k ==> #[trigger] lookup(final(store)@.clients, k2) == lookup(
                        old(store)@.clients,
                        k2,
                    )))
            }
        }),
{
    let queries = parse_param(req.param.as_str());
    let session_id = callback_session_id(&queries, req.param.as_str());
    // a session that never answered (or answered wrongly) stays as it
    // is: playback events cannot promote it
    let authorized = match store.get_client_status(req.ip.as_str(), session_id.as_str()) {
        Some(st) => st.is_authorized(),
        None => false,
    };
    if authorized {
        store.update_client_activity(
            req.ip.as_str(),
            session_id.as_str(),
            ClientStatus::Resting,
            now,
        );
    }
    SrsDecision::Accept
}

/// `s` spells `true` in any ASCII case.
pub open spec fn is_true_ci(s: Seq<char>) -> bool {
    s.len() == 4 && (s[0] == 't' || s[0] == 'T') && (s[1] == 'r' || s[1] == 'R') && (s[2] == 'u'
        || s[2] == 'U') && (s[3] == 'e' || s[3] == 'E')
}

/// Whether `s` spells `true` in any ASCII case.
pub fn str_is_true_ci(s: &str) -> (r: bool)
    ensures
        r == is_true_ci(s@),
{
    let n = s.unicode_len();
    if n != 4 {
        return false;
    }
    let c0 = s.get_char(0);
    let c1 = s.get_char(1);
    let c2 = s.get_char(2);
    let c3 = s.get_char(3);
    (c0 == 't' || c0 == 'T') && (c1 == 'r' || c1 == 'R') && (c2 == 'u' || c2 == 'U') && (c3 == 'e'
        || c3 == 'E')
}

} // verus!
