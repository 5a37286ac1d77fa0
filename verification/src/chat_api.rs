//! The chat-facing request surface, gated by the access-control store.

use vstd::prelude::*;
use crate::api::chat_unchanged;
use crate::chat::{ChatDatabaseInner, ChatMessageOut, name_taken, has_chat_client};
use crate::srs::{SrsDatabaseInner, lookup};
use crate::status::StreamerStatus;

verus! {

/// The query parameters a chat request carries.
#[derive(Debug)]
pub struct ChatParams {
    /// The caller's request (session) id.
    pub rid: String,
}

/// The operations the chat surface accepts.
#[derive(Debug)]
pub enum ChatRequest {
    /// First contact: fetch one's name and the latest messages.
    Hello,
    /// Choose a display name.
    SetName {
        /// The name asked for.
        name: String,
    },
    /// Set the room label (publisher only).
    SetLiveName {
        /// The label asked for.
        name: String,
    },
    /// Poll for messages around a known time.
    GetChat {
        /// Fetch the messages just before this time, in milliseconds.
        prev: Option<i64>,
        /// Fetch the messages after this time, in milliseconds.
        next: Option<i64>,
    },
    /// Send a message.
    SendChat {
        /// The message text.
        chat: String,
    },
    /// Ask how many are watching.
    GetAudiences,
    /// Save a chat snapshot (publisher only).
    SaveSnapshot,
}

/// The audience numbers a poll reports.
#[derive(Debug, Clone, Copy, PartialEq, Eq, Structural)]
pub struct AudienceInfo {
    /// Watching right now; -1 when unknown.
    pub current: i32,
    /// Distinct chat users seen so far.
    pub total: usize,
}

/// The fields a chat reply may carry.
#[derive(Debug)]
pub struct ChatResponse {
    /// `Okay` or `Nope`.
    pub status: Option<String>,
    /// A display name or the room label, depending on the operation.
    pub name: Option<String>,
    /// The polled messages.
    pub chatmsgs: Option<Vec<ChatMessageOut>>,
    /// The audience numbers.
    pub audiences: Option<AudienceInfo>,
}

impl ChatResponse {
    /// An empty reply.
    pub fn new() -> (r: Self)
        ensures
            r.status is None,
            r.name is None,
            r.chatmsgs is None,
            r.audiences is None,
    {
        Self { status: None, name: None, chatmsgs: None, audiences: None }
    }

    /// Sets the status word.
    pub fn with_status(self, status: &str) -> (r: Self)
        ensures
            r.status matches Some(s) && s@ == status@,
            r.name == self.name,
            r.chatmsgs == self.chatmsgs,
            r.audiences == self.audiences,
    {
        Self { status: Some(String::from_str(status)), ..self }
    }

    /// Sets (or clears) the name field.
    pub fn with_name(self, name: Option<String>) -> (r: Self)
        ensures
            r == (ChatResponse { name, ..self }),
    {
        Self { name, ..self }
    }

    /// Sets the message list.
    pub fn with_chatmsgs(self, msgs: Vec<ChatMessageOut>) -> (r: Self)
        ensures
            r == (ChatResponse { chatmsgs: Some(msgs), ..self }),
    {
        Self { chatmsgs: Some(msgs), ..self }
    }

    /// Sets the audience numbers.
    pub fn with_audiences(self, current: i32, total: usize) -> (r: Self)
        ensures
            r == (ChatResponse { audiences: Some(AudienceInfo { current, total }), ..self }),
    {
        Self { audiences: Some(AudienceInfo { current, total }), ..self }
    }
}

/// How a chat request was answered.
#[derive(Debug)]
pub enum ChatReply {
    /// The request was declined outright (no broadcast, or malformed).
    Forbidden,
    /// The caller has not answered its challenge.
    NotAuthorized,
    /// A structured reply; `save_snapshot` asks the caller to dump the
    /// log to disk.
    Payload {
        /// The reply itself.
        response: ChatResponse,
        /// Set when a publisher asked for a snapshot.
        save_snapshot: bool,
    },
}

/// The status word of a granted operation.
pub open spec fn okay() -> Seq<char> {
    "Okay"@
}

/// The status word of a declined operation.
pub open spec fn nope() -> Seq<char> {
    "Nope"@
}

/// What a poll reply must satisfy: a missing stamp is refused; with a
/// stamp, the rows are the polled range of the log at that stamp.
pub open spec fn getchat_post(
    ms: Seq<crate::chat::ChatEntry>,
    cs: Seq<crate::chat::ChatClient>,
    prev: Option<i64>,
    next: Option<i64>,
    r: ChatReply,
) -> bool {
    &&& ((prev is None && next is None) ==> r is Forbidden)
    &&& ((prev is Some || next is Some) ==> {
        &&& r is Payload
        &&& !r->Payload_save_snapshot
        &&& r->Payload_response.status is Some
        &&& r->Payload_response.status->Some_0@ == okay()
        &&& r->Payload_response.chatmsgs is Some
        &&& (prev is Some ==> ChatDatabaseInner::polled(
            ms,
            cs,
            prev->Some_0,
            true,
            r->Payload_response.chatmsgs->Some_0@,
        ))
        &&& ((prev is None && next is Some) ==> ChatDatabaseInner::polled(
            ms,
            cs,
            next->Some_0,
            false,
            r->Payload_response.chatmsgs->Some_0@,
        ))
    })
}

/// Polls the log for one viewer, by its last-seen stamp.
fn poll_chat(chat: &ChatDatabaseInner, base: ChatResponse, prev: Option<i64>, next: Option<i64>) -> (r:
    ChatReply)
    requires
        chat.wf(),
    ensures
        getchat_post(chat.messages@, chat.clients@, prev, next, r),
{
    match (prev, next) {
        (Some(p), _) => {
            let msgs = chat.get_chat_from(p, true);
            let response = base.with_status("Okay").with_chatmsgs(msgs);
            ChatReply::Payload { response, save_snapshot: false }
        },
        (None, Some(nx)) => {
            let msgs = chat.get_chat_from(nx, false);
            let response = base.with_status("Okay").with_chatmsgs(msgs);
            ChatReply::Payload { response, save_snapshot: false }
        },
        (None, None) => ChatReply::Forbidden,
    }
}

/// Handles one chat request: the caller must belong to a running
/// broadcast and have answered its challenge; publishers alone may
/// rename the room or snapshot the log.
#[verifier::rlimit(100)]
#[verifier::spinoff_prover]
pub fn chat_request(
    store: &mut SrsDatabaseInner,
    chat: &mut ChatDatabaseInner,
    client_ip: &str,
    rid: &str,
    req: &ChatRequest,
    now_millis: i64,
) -> (r: ChatReply)
    requires
        old(store).wf(),
        old(chat).wf(),
    ensures
        final(store).wf(),
        final(chat).wf(),
        final(store).clients == old(store).clients,
        final(store).public_stream == old(store).public_stream,
        final(store).verifier == old(store).verifier,
        final(store).streamer.status == old(store).streamer.status,
        old(store).streamer.status == StreamerStatus::Standby ==> *final(store) == *old(store)
            && chat_unchanged(*old(chat), *final(chat)) && r is Forbidden,
        ({
            let pre = lookup(old(store)@.clients, (client_ip@, rid@));
            let gate_auth = pre matches Some(c) && c.status.spec_is_authorized();
            (old(store).streamer.status != StreamerStatus::Standby && !gate_auth) ==> *final(store)
                == *old(store) && chat_unchanged(*old(chat), *final(chat)) && r is NotAuthorized
        }),
        ({
            let pre = lookup(old(store)@.clients, (client_ip@, rid@));
            let gate_auth = pre matches Some(c) && c.status.spec_is_authorized();
            (old(store).streamer.status != StreamerStatus::Standby && gate_auth && req is Hello)
                ==> *final(store) == *old(store) && chat_unchanged(*old(chat), *final(chat)) && (
            r matches ChatReply::Payload { response, save_snapshot } && {
                &&& !save_snapshot
                &&& response.status matches Some(s) && s@ == okay()
                &&& response.chatmsgs is Some
                &&& ChatDatabaseInner::polled(
                    old(chat).messages@,
                    old(chat).clients@,
                    -1i64,
                    false,
                    response.chatmsgs->Some_0@,
                )
                &&& crate::chat::name_reported(old(chat).clients@, client_ip@, rid@, response.name)
                &&& response.audiences is None
            })
        }),
        ({
            let pre = lookup(old(store)@.clients, (client_ip@, rid@));
            let gate_auth = pre matches Some(c) && c.status.spec_is_authorized();
            let name = req->SetName_name;
            let ok = !(name_taken(old(chat).clients@, name@) || (exists|i: int|
                0 <= i < old(chat).clients@.len() && (#[trigger] old(chat).clients@[i]).ip@
                    == client_ip@ && old(chat).clients@[i].rid@ == rid@
                    && old(chat).clients@[i].identity.name is Some));
            (old(store).streamer.status != StreamerStatus::Standby && gate_auth && req is SetName)
                ==> {
                &&& *final(store) == *old(store)
                &&& final(chat).messages == old(chat).messages
                &&& (r matches ChatReply::Payload { response, save_snapshot } && {
                    &&& !save_snapshot
                    &&& response.audiences is None
                    &&& response.chatmsgs is None
                    &&& (ok ==> (response.status matches Some(s) && s@ == okay()) && name_taken(
                        final(chat).clients@,
                        name@,
                    ) && (response.name matches Some(n) && n@ == name@))
                    &&& (!ok ==> (response.status matches Some(s) && s@ == nope()) && final(chat).clients == old(chat).clients
                        && crate::chat::name_reported(
                        old(chat).clients@,
                        client_ip@,
                        rid@,
                        response.name,
                    ))
                })
            }
        }),
        ({
            let pre = lookup(old(store)@.clients, (client_ip@, rid@));
            let gate_auth = pre matches Some(c) && c.status.spec_is_authorized();
            let is_pub = pre matches Some(c) && c.is_publisher;
            let name = req->SetLiveName_name;
            (old(store).streamer.status != StreamerStatus::Standby && gate_auth
                && req is SetLiveName) ==> {
                &&& chat_unchanged(*old(chat), *final(chat))
                &&& (r matches ChatReply::Payload { response, save_snapshot } && {
                    &&& !save_snapshot
                    &&& response.chatmsgs is None
                    &&& response.audiences is None
                    &&& (is_pub ==> final(store).streamer == (crate::srs::StreamerRecord {
                        stream_name: Some(name),
                        ..old(store).streamer
                    }) && (response.status matches Some(s) && s@ == okay()) && (response.name
                        matches Some(n) && n@ == name@))
                    &&& (!is_pub ==> *final(store) == *old(store) && (response.status
                        matches Some(s) && s@ == nope()) && (match old(store).streamer.stream_name {
                        Some(n0) => response.name matches Some(n) && n@ == n0@,
                        None => response.name is None,
                    }))
                })
            }
        }),
        ({
            let pre = lookup(old(store)@.clients, (client_ip@, rid@));
            let gate_auth = pre matches Some(c) && c.status.spec_is_authorized();
            (old(store).streamer.status != StreamerStatus::Standby && gate_auth && req is GetChat)
                ==> *final(store) == *old(store) && chat_unchanged(*old(chat), *final(chat))
                && getchat_post(
                old(chat).messages@,
                old(chat).clients@,
                req->GetChat_prev,
                req->GetChat_next,
                r,
            )
        }),
        ({
            let pre = lookup(old(store)@.clients, (client_ip@, rid@));
            let gate_auth = pre matches Some(c) && c.status.spec_is_authorized();
            (old(store).streamer.status != StreamerStatus::Standby && gate_auth && req is SendChat)
                ==> *final(store) == *old(store) && has_chat_client(
                final(chat).clients@,
                client_ip@,
                rid@,
            ) && final(chat).messages@.len() == old(chat).messages@.len() + 1 && (
            r matches ChatReply::Payload { response, save_snapshot } && {
                &&& !save_snapshot
                &&& response.status matches Some(s) && s@ == okay()
                &&& response.chatmsgs is None
            })
        }),
        ({
            let pre = lookup(old(store)@.clients, (client_ip@, rid@));
            let gate_auth = pre matches Some(c) && c.status.spec_is_authorized();
            (old(store).streamer.status != StreamerStatus::Standby && gate_auth
                && req is GetAudiences) ==> *final(store) == *old(store) && chat_unchanged(
                *old(chat),
                *final(chat),
            ) && (r matches ChatReply::Payload { response, save_snapshot } && {
                &&& !save_snapshot
                &&& response.status matches Some(s) && s@ == okay()
                &&& response.audiences == Some(
                    AudienceInfo { current: -1i32, total: old(chat).clients@.len() as usize },
                )
            })
        }),
        ({
            let pre = lookup(old(store)@.clients, (client_ip@, rid@));
            let gate_auth = pre matches Some(c) && c.status.spec_is_authorized();
            let is_pub = pre matches Some(c) && c.is_publisher;
            (old(store).streamer.status != StreamerStatus::Standby && gate_auth
                && req is SaveSnapshot) ==> *final(store) == *old(store) && chat_unchanged(
                *old(chat),
                *final(chat),
            ) && (r matches ChatReply::Payload { response, save_snapshot } && {
                &&& save_snapshot == is_pub
                &&& (is_pub ==> (response.status matches Some(s) && s@ == okay()))
                &&& (!is_pub ==> (response.status matches Some(s) && s@ == nope()))
            })
        }),
{
    if !store.is_streaming() {
        return ChatReply::Forbidden;
    }
    if !store.has_authorized_client(client_ip, rid) {
        return ChatReply::NotAuthorized;
    }
    let mut response = ChatResponse::new();
    match req {
        ChatRequest::Hello => {
            let name = chat.get_client_name(client_ip, rid);
            let msgs = chat.get_chat_from(-1, false);
            response = response.with_status("Okay").with_name(name).with_chatmsgs(msgs);
            ChatReply::Payload { response, save_snapshot: false }
        },
        ChatRequest::SetName { name } => {
            let success = chat.set_client_name(client_ip, rid, name.clone());
            let shown = chat.get_client_name(client_ip, rid);
            response = response.with_status(
                if success {
                    "Okay"
                } else {
                    "Nope"
                },
            ).with_name(shown);
            ChatReply::Payload { response, save_snapshot: false }
        },
        ChatRequest::SetLiveName { name } => {
            if store.client_is_publisher(client_ip, rid) {
                store.set_stream_name(name.clone());
                response = response.with_status("Okay");
            } else {
                response = response.with_status("Nope");
            }
            let shown = match store.get_stream_name() {
                Some(n) => Some(String::from_str(n)),
                None => None,
            };
            response = response.with_name(shown);
            ChatReply::Payload { response, save_snapshot: false }
        },
        ChatRequest::GetChat { prev, next } => poll_chat(chat, response, *prev, *next),
        ChatRequest::SendChat { chat: text } => {
            let is_publisher = store.client_is_publisher(client_ip, rid);
            chat.add_entry(
                String::from_str(client_ip),
                String::from_str(rid),
                text.clone(),
                is_publisher,
                now_millis,
            );
            response = response.with_status("Okay");
            ChatReply::Payload { response, save_snapshot: false }
        },
        ChatRequest::GetAudiences => {
            let total = chat.size();
            response = response.with_status("Okay").with_audiences(-1, total);
            ChatReply::Payload { response, save_snapshot: false }
        },
        ChatRequest::SaveSnapshot => {
            if store.client_is_publisher(client_ip, rid) {
                response = response.with_status("Okay");
                ChatReply::Payload { response, save_snapshot: true }
            } else {
                response = response.with_status("Nope");
                ChatReply::Payload { response, save_snapshot: false }
            }
        },
    }
}

} // verus!
