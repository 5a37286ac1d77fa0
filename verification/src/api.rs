//! The viewer-facing request surface: connect, answer, end, and status
//! queries, dispatched as one atomic operation over the store.

use vstd::prelude::*;
use crate::banner::{BannerDatabase, corpus_question, placeholder_question};
use crate::chat::ChatDatabaseInner;
use crate::srs::{SrsDatabaseInner, lookup, challenges_assigned, idle_streamer};
use crate::status::ClientStatus;
use crate::status::StreamerStatus;
use crate::text::{str_eq, str_has_prefix, has_prefix, trimmed, first_index_of};

verus! {

/// What a status query reports about the stream.
#[derive(Debug, Clone, Copy, PartialEq, Eq, Structural)]
pub enum StreamStatus {
    /// The caller has no session.
    Unregistered,
    /// The caller answered wrongly and is locked out.
    Banned,
    /// The caller has an unanswered challenge.
    Pending,
    /// The broadcast is live.
    Live,
    /// The broadcast is interrupted.
    Paused,
    /// No broadcast is underway.
    Ended,
}

impl StreamStatus {
    /// The wire label of each status.
    pub fn as_str(&self) -> (r: &'static str)
        ensures
            r@ == self.label(),
    {
        match self {
            Self::Unregistered => "unregistered",
            Self::Banned => "banned",
            Self::Pending => "pending",
            Self::Live => "live",
            Self::Paused => "paused",
            Self::Ended => "ended",
        }
    }

    /// The label of each status as a sequence of characters.
    pub open spec fn label(self) -> Seq<char> {
        match self {
            Self::Unregistered => "unregistered"@,
            Self::Banned => "banned"@,
            Self::Pending => "pending"@,
            Self::Live => "live"@,
            Self::Paused => "paused"@,
            Self::Ended => "ended"@,
        }
    }
}

/// The parameters a viewer request carries.
#[derive(Debug)]
pub struct ApiParams {
    /// The caller's session token.
    pub session_id: String,
    /// `connect` asks for a challenge or the locator.
    pub action: Option<String>,
    /// A submitted answer, or the push secret.
    pub answer: Option<String>,
    /// Any value asks for a status report.
    pub status: Option<String>,
    /// `true` asks to end the broadcast.
    pub end: Option<String>,
}

/// The fields a reply may carry; absent fields are left out on the wire.
#[derive(Debug, Clone)]
pub struct ApiResponse {
    /// The room label, shown to everyone.
    pub stream_name: Option<String>,
    /// The stream locator (or a decoy).
    pub video_uri: Option<String>,
    /// The challenge to answer.
    pub question: Option<String>,
    /// Set when the caller is the publisher's delegate.
    pub is_publisher: Option<bool>,
    /// The stream status label.
    pub stream_status: Option<String>,
}

impl ApiResponse {
    /// An empty reply.
    pub fn new() -> (r: Self)
        ensures
            r.stream_name is None,
            r.video_uri is None,
            r.question is None,
            r.is_publisher is None,
            r.stream_status is None,
    {
        Self {
            stream_name: None,
            video_uri: None,
            question: None,
            is_publisher: None,
            stream_status: None,
        }
    }

    /// Sets the room label.
    pub fn with_stream_name(self, name: String) -> (r: Self)
        ensures
            r == (ApiResponse { stream_name: Some(name), ..self }),
    {
        Self { stream_name: Some(name), ..self }
    }

    /// Sets the locator.
    pub fn with_video_uri(self, uri: String) -> (r: Self)
        ensures
            r == (ApiResponse { video_uri: Some(uri), ..self }),
    {
        Self { video_uri: Some(uri), ..self }
    }

    /// Sets the challenge.
    pub fn with_question(self, q: String) -> (r: Self)
        ensures
            r == (ApiResponse { question: Some(q), ..self }),
    {
        Self { question: Some(q), ..self }
    }

    /// Marks the caller as the publisher's delegate.
    pub fn with_publisher(self) -> (r: Self)
        ensures
            r == (ApiResponse { is_publisher: Some(true), ..self }),
    {
        Self { is_publisher: Some(true), ..self }
    }

    /// Sets the stream status label.
    pub fn with_stream_status(self, status: &str) -> (r: Self)
        ensures
            r.stream_status matches Some(s) && s@ == status@,
            r.stream_name == self.stream_name,
            r.video_uri == self.video_uri,
            r.question == self.question,
            r.is_publisher == self.is_publisher,
    {
        Self { stream_status: Some(String::from_str(status)), ..self }
    }
}

/// The decoy locator a denied viewer is shown.
pub open spec fn banned_decoy() -> Seq<char> {
    "app=genshin&straem=impact"@
}

/// The decoy locator shown on a wrong answer or wrong secret.
pub open spec fn wrong_answer_decoy() -> Seq<char> {
    "app=ehviewer&straem=lolicon"@
}

/// The marker that distinguishes a push secret from a quiz answer.
pub open spec fn secret_marker() -> Seq<char> {
    "secret_"@
}

/// An optional string holds exactly `w`.
pub open spec fn opt_is(o: Option<String>, w: Seq<char>) -> bool {
    o matches Some(a) && a@ == w
}

/// The chat log is untouched.
pub open spec fn chat_unchanged(pre: ChatDatabaseInner, post: ChatDatabaseInner) -> bool {
    pre.messages == post.messages && pre.clients == post.clients && pre.next_uid == post.next_uid
}

/// The reply's room label mirrors the store's.
pub open spec fn resp_base(store: SrsDatabaseInner, r: ApiResponse) -> bool {
    match store.streamer.stream_name {
        Some(n) => r.stream_name matches Some(m) && m@ == n@,
        None => r.stream_name is None,
    }
}

/// The reply's locator mirrors the store's, absent when none is set.
pub open spec fn resp_uri(store: SrsDatabaseInner, r: ApiResponse) -> bool {
    match store.streamer.stream_uri {
        Some(u) => r.video_uri matches Some(v) && v@ == u@,
        None => r.video_uri is None,
    }
}

/// What a status query reports, from the store and the caller's session.
pub open spec fn stream_status_of(
    store: SrsDatabaseInner,
    k: (Seq<char>, Seq<char>),
) -> StreamStatus {
    match lookup(store@.clients, k) {
        None => StreamStatus::Unregistered,
        Some(c) => if c.status == ClientStatus::Nil {
            StreamStatus::Banned
        } else if c.status == ClientStatus::Pending {
            StreamStatus::Pending
        } else if store.streamer.status == StreamerStatus::Standby {
            StreamStatus::Ended
        } else if store.streamer.status != StreamerStatus::Streaming {
            StreamStatus::Paused
        } else {
            StreamStatus::Live
        },
    }
}

/// The challenge text a new viewer is shown: in public mode the answer
/// is embedded in the text itself.
pub open spec fn shown_question(q: Seq<char>, a: Seq<char>, public: bool) -> Seq<char> {
    if public {
        q + "(answer=\""@ + a + "\")"@
    } else {
        q
    }
}

/// How a viewer request was answered.
#[derive(Debug)]
pub enum ApiReply {
    /// A structured reply.
    Payload(ApiResponse),
    /// The answer came while the session was not pending.
    NotPending,
    /// The broadcast was ended and the store reset.
    EndOk,
    /// The request was declined.
    Forbidden,
}

/// Extracts the caller's address: the first entry of a forwarded-for
/// header when one is present, else the address part of the remote
/// address.
pub fn get_client_ip(forwarded: Option<&str>, remote_addr: &str) -> (r: String)
    ensures
        match forwarded {
            Some(f) => r@ == trimmed(
                match first_index_of(f@, ',') {
                    Some(i) => f@.subrange(0, i),
                    None => f@,
                },
            ),
            None => r@ == match first_index_of(remote_addr@, ':') {
                Some(i) => remote_addr@.subrange(0, i),
                None => remote_addr@,
            },
        },
{
    match forwarded {
        Some(f) => {
            let seg = match crate::text::find_char(f, ',') {
                Some(i) => {
                    proof {
                        crate::text::lemma_first_index_of(f@, ',');
                    }
                    f.substring_char(0, i)
                },
                None => f,
            };
            String::from_str(crate::text::trim_str(seg))
        },
        None => {
            let seg = match crate::text::find_char(remote_addr, ':') {
                Some(i) => {
                    proof {
                        crate::text::lemma_first_index_of(remote_addr@, ':');
                    }
                    remote_addr.substring_char(0, i)
                },
                None => remote_addr,
            };
            String::from_str(seg)
        },
    }
}

/// Handles one viewer request against the store: hands a challenge to a
/// new viewer, checks an answer or a push secret, ends the broadcast
/// for its own publisher, or reports status.  The whole operation is
/// one atomic step over the store.
pub fn api_request(
    store: &mut SrsDatabaseInner,
    chat: &mut ChatDatabaseInner,
    banners: &BannerDatabase,
    client_ip: &str,
    params: &ApiParams,
    now: u64,
) -> (r: ApiReply)
    requires
        old(store).wf(),
        old(chat).wf(),
    ensures
        final(store).wf(),
        final(chat).wf(),
        final(store).verifier == old(store).verifier,
        challenges_assigned(old(store)@.clients) ==> challenges_assigned(final(store)@.clients),
        ({
            let k = (client_ip@, params.session_id@);
            let pre = lookup(old(store)@.clients, k);
            let c = pre->Some_0;
            let ans = params.answer->Some_0;
            let is_connect = opt_is(params.action, "connect"@);
            let wants_end = opt_is(params.end, "true"@);
            {
                // an established viewer reconnecting: no new challenge is minted
                &&& ((is_connect && pre is Some) ==> {
                    &&& final(store)@ == old(store)@
                    &&& chat_unchanged(*old(chat), *final(chat))
                    &&& (c.status.spec_is_authorized() ==> (r matches ApiReply::Payload(resp)
                        && resp_base(*old(store), resp) && resp_uri(*old(store), resp)
                        && resp.question is None && resp.stream_status is None
                        && resp.is_publisher == (if c.is_publisher {
                        Some(true)
                    } else {
                        None
                    })))
                    // a denied viewer always gets the decoy and never a new challenge
                    &&& (c.status == ClientStatus::Nil ==> (r matches ApiReply::Payload(resp)
                        && resp_base(*old(store), resp) && (resp.video_uri matches Some(v) && v@
                        == banned_decoy()) && resp.question is None && resp.is_publisher is None
                        && resp.stream_status is None))
                    // a pending viewer sees its existing challenge again
                    &&& (c.status == ClientStatus::Pending ==> (r matches ApiReply::Payload(
                        resp,
                    ) && resp_base(*old(store), resp) && (resp.question matches Some(q) && q@
                        == c.question@) && resp.video_uri is None && resp.is_publisher is None
                        && resp.stream_status is None))
                })
                // a first contact: a fresh challenge is drawn and stored
                &&& (is_connect && pre is None ==> {
                    &&& chat_unchanged(*old(chat), *final(chat))
                    &&& final(store).streamer == old(store).streamer
                    &&& final(store).public_stream == old(store).public_stream
                    &&& (exists|q0: Seq<char>, a0: Seq<char>|
                        {
                            &&& #[trigger] corpus_question(banners.banners@, q0, a0)
                                || placeholder_question(q0, a0)
                            &&& q0.len() > 0
                            &&& a0.len() > 0
                            &&& (lookup(final(store)@.clients, k) matches Some(c) && c.question@
                                == shown_question(q0, a0, old(store).public_stream) && c.answer@
                                == a0 && c.status == ClientStatus::Pending && c.created_at == now
                                && c.last_activity == now && !c.is_publisher
                                && c.display_name is None)
                            &&& (r matches ApiReply::Payload(resp) && resp_base(
                                *old(store),
                                resp,
                            ) && (resp.question matches Some(q) && q@ == shown_question(
                                q0,
                                a0,
                                old(store).public_stream,
                            )) && resp.video_uri is None && resp.is_publisher is None
                                && resp.stream_status is None)
                        })
                    &&& (forall|k2: (Seq<char>, Seq<char>)|
                        k2 != k ==> #[trigger] lookup(final(store)@.clients, k2) == lookup(
                            old(store)@.clients,
                            k2,
                        ))
                })
                // an answer from an unknown session is declined outright
                &&& (!is_connect && params.answer is Some && pre is None ==> final(store)@ == old(store)@ && chat_unchanged(*old(chat), *final(chat)) && r is Forbidden)
                // a push secret binds the session to the publisher exactly
                // when it equals the slot's stored secret
                &&& ((!is_connect && params.answer is Some && has_prefix(
                    ans@,
                    secret_marker(),
                ) && pre is Some) ==> {
                    &&& chat_unchanged(*old(chat), *final(chat))
                    &&& final(store).public_stream == old(store).public_stream
                    &&& (forall|k2: (Seq<char>, Seq<char>)|
                        k2 != k ==> #[trigger] lookup(final(store)@.clients, k2) == lookup(
                            old(store)@.clients,
                            k2,
                        ))
                    &&& ((old(store).streamer.secret is Some && old(store).streamer.secret->Some_0@ == ans@) ==> {
                        &&& lookup(final(store)@.clients, k) == Some(
                            crate::srs::ClientRecord {
                                status: ClientStatus::Legal,
                                last_activity: now,
                                is_publisher: true,
                                ..c
                            },
                        )
                        &&& final(store).streamer.session_id is Some && final(store).streamer.session_id->Some_0@ == params.session_id@
                        &&& final(store).streamer.secret == old(store).streamer.secret
                        &&& final(store).streamer.status == old(store).streamer.status
                        &&& (r matches ApiReply::Payload(resp) && resp_base(*old(store), resp)
                            && resp.is_publisher == Some(true) && resp_uri(*old(store), resp)
                            && resp.question is None && resp.stream_status is None)
                    })
                    &&& (!(old(store).streamer.secret is Some && old(store).streamer.secret->Some_0@ == ans@) ==> {
                        &&& lookup(final(store)@.clients, k) == Some(
                            crate::srs::ClientRecord {
                                status: ClientStatus::Nil,
                                last_activity: now,
                                ..c
                            },
                        )
                        &&& final(store).streamer == old(store).streamer
                        &&& (r matches ApiReply::Payload(resp) && resp_base(*old(store), resp)
                            && (resp.video_uri matches Some(v) && v@ == wrong_answer_decoy())
                            && resp.is_publisher is None && resp.question is None
                            && resp.stream_status is None)
                    })
                })
                // a quiz answer is only accepted while pending, and the
                // exact expected answer authorizes; anything else denies
                &&& ((!is_connect && params.answer is Some && !has_prefix(
                    ans@,
                    secret_marker(),
                ) && pre is Some) ==> {
                    &&& chat_unchanged(*old(chat), *final(chat))
                    &&& (c.status != ClientStatus::Pending ==> final(store)@ == old(store)@ && r is
                        NotPending)
                    &&& (c.status == ClientStatus::Pending ==> {
                        &&& final(store).streamer == old(store).streamer
                        &&& final(store).public_stream == old(store).public_stream
                        &&& (forall|k2: (Seq<char>, Seq<char>)|
                            k2 != k ==> #[trigger] lookup(final(store)@.clients, k2) == lookup(
                                old(store)@.clients,
                                k2,
                            ))
                        &&& (ans@ == c.answer@ ==> lookup(final(store)@.clients, k) == Some(
                            crate::srs::ClientRecord {
                                status: ClientStatus::Legal,
                                last_activity: now,
                                ..c
                            },
                        ) && (r matches ApiReply::Payload(resp) && resp_base(*old(store), resp)
                            && resp_uri(*old(store), resp) && resp.question is None
                            && resp.is_publisher is None && resp.stream_status is None))
                        &&& (ans@ != c.answer@ ==> lookup(final(store)@.clients, k) == Some(
                            crate::srs::ClientRecord {
                                status: ClientStatus::Nil,
                                last_activity: now,
                                ..c
                            },
                        ) && (r matches ApiReply::Payload(resp) && resp_base(*old(store), resp)
                            && (resp.video_uri matches Some(v) && v@ == wrong_answer_decoy())
                            && resp.question is None && resp.is_publisher is None
                            && resp.stream_status is None))
                    })
                })
                // ending the broadcast succeeds exactly for the bound token,
                // and then resets the whole store and the chat log
                &&& (!is_connect && params.answer is None && wants_end ==> {
                    &&& ((old(store).streamer.session_id is Some && old(store).streamer.session_id->Some_0@ == params.session_id@) ==> {
                        &&& final(store)@.clients.len() == 0
                        &&& final(store)@.streamer == idle_streamer(now)
                        &&& !final(store)@.public_stream
                        &&& final(chat).messages@.len() == 0
                        &&& final(chat).clients@.len() == 0
                        &&& r is EndOk
                    })
                    &&& (!(old(store).streamer.session_id is Some && old(store).streamer.session_id->Some_0@ == params.session_id@) ==> final(store)@ == old(store)@ && chat_unchanged(*old(chat), *final(chat)) && r is Forbidden)
                })
                // a status query reports and changes nothing
                &&& (!is_connect && params.answer is None && !wants_end && params.status is Some
                    ==> {
                    &&& final(store)@ == old(store)@
                    &&& chat_unchanged(*old(chat), *final(chat))
                    &&& (r matches ApiReply::Payload(resp) && resp_base(*old(store), resp) && (
                    resp.stream_status matches Some(s) && s@ == stream_status_of(
                        *old(store),
                        k,
                    ).label()) && resp.question is None && resp.video_uri is None
                        && resp.is_publisher is None)
                })
                // anything else is declined and changes nothing
                &&& (!is_connect && params.answer is None && !wants_end && params.status is None
                    ==> final(store)@ == old(store)@ && chat_unchanged(*old(chat), *final(chat))
                    && r is Forbidden)
            }
        }),
{
    let mut response = ApiResponse::new();
    match store.get_stream_name() {
        Some(n) => {
            response = response.with_stream_name(String::from_str(n));
        },
        None => {},
    }
    let sid = params.session_id.as_str();

    let is_connect = match &params.action {
        Some(a) => str_eq(a.as_str(), "connect"),
        None => false,
    };
    if is_connect {
        match store.get_client_status(client_ip, sid) {
            Some(st) => {
                if st.is_authorized() {
                    match store.get_stream_uri() {
                        Some(u) => {
                            response = response.with_video_uri(String::from_str(u));
                        },
                        None => {},
                    }
                    if store.client_is_publisher(client_ip, sid) {
                        response = response.with_publisher();
                    }
                } else if matches!(st, ClientStatus::Nil) {
                    response = response.with_video_uri(
                        String::from_str("app=genshin&straem=impact"),
                    );
                } else {
                    match store.get_client_qa(client_ip, sid) {
                        Some((q, _)) => {
                            response = response.with_question(String::from_str(q));
                        },
                        None => {},
                    }
                }
                return ApiReply::Payload(response);
            },
            None => {
                let is_public = store.is_public();
                let (q0, a0) = banners.random_question();
                let q_shown = if is_public {
                    let mut q = q0;
                    q.append("(answer=\"");
                    q.append(a0.as_str());
                    q.append("\")");
                    q
                } else {
                    q0
                };
                store.register_viewer(
                    String::from_str(client_ip),
                    params.session_id.clone(),
                    q_shown.clone(),
                    a0,
                    now,
                );
                response = response.with_question(q_shown);
                return ApiReply::Payload(response);
            },
        }
    }

    match &params.answer {
        Some(answer) => {
            if !store.has_client(client_ip, sid) {
                return ApiReply::Forbidden;
            }
            if str_has_prefix(answer.as_str(), "secret_") {
                if store.connect_streamer(params.session_id.clone(), answer.as_str()) {
                    store.update_client_activity(client_ip, sid, ClientStatus::Legal, now);
                    store.set_client_publisher(client_ip, sid);
                    response = response.with_publisher();
                    match store.get_stream_uri() {
                        Some(u) => {
                            response = response.with_video_uri(String::from_str(u));
                        },
                        None => {},
                    }
                } else {
                    store.update_client_activity(client_ip, sid, ClientStatus::Nil, now);
                    response = response.with_video_uri(
                        String::from_str("app=ehviewer&straem=lolicon"),
                    );
                }
                return ApiReply::Payload(response);
            }
            let st = store.get_client_status(client_ip, sid);
            if !matches!(st, Some(ClientStatus::Pending)) {
                return ApiReply::NotPending;
            }
            let correct = match store.get_client_qa(client_ip, sid) {
                Some((_, correct_answer)) => str_eq(correct_answer, answer.as_str()),
                None => false,
            };
            if correct {
                store.update_client_activity(client_ip, sid, ClientStatus::Legal, now);
                match store.get_stream_uri() {
                    Some(u) => {
                        response = response.with_video_uri(String::from_str(u));
                    },
                    None => {},
                }
            } else {
                store.update_client_activity(client_ip, sid, ClientStatus::Nil, now);
                response = response.with_video_uri(String::from_str("app=ehviewer&straem=lolicon"));
            }
            return ApiReply::Payload(response);
        },
        None => {},
    }

    let wants_end = match &params.end {
        Some(e) => str_eq(e.as_str(), "true"),
        None => false,
    };
    if wants_end {
        if store.end_streaming(Some(sid), now) {
            store.reset(now);
            chat.reset();
            return ApiReply::EndOk;
        } else {
            return ApiReply::Forbidden;
        }
    }

    if params.status.is_some() {
        let status = match store.get_client_status(client_ip, sid) {
            None => StreamStatus::Unregistered,
            Some(ClientStatus::Nil) => StreamStatus::Banned,
            Some(ClientStatus::Pending) => StreamStatus::Pending,
            Some(_) => {
                if !store.is_streaming() {
                    StreamStatus::Ended
                } else if !store.is_actively_streaming() {
                    StreamStatus::Paused
                } else {
                    StreamStatus::Live
                }
            },
        };
        response = response.with_stream_status(status.as_str());
        return ApiReply::Payload(response);
    }

    ApiReply::Forbidden
}

} // verus!
