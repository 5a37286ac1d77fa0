//! The polling chat log: time-ordered messages and per-client identities.
//!
//! Timestamps are integer milliseconds; the caller supplies the clock.

use vstd::prelude::*;
use crate::text::str_eq;

verus! {

/// One chat message.
#[derive(Debug, Clone)]
pub struct ChatEntry {
    /// The sender's user id.
    pub uid: u32,
    /// The message text.
    pub content: String,
    /// When the message arrived, in milliseconds.
    pub stamp_millis: i64,
    /// Whether the publisher sent it.
    pub is_publisher: bool,
}

impl ChatEntry {
    /// A message as recorded.
    pub fn new(uid: u32, content: String, stamp_millis: i64, is_publisher: bool) -> (r: Self)
        ensures
            r.uid == uid,
            r.content == content,
            r.stamp_millis == stamp_millis,
            r.is_publisher == is_publisher,
    {
        Self { uid, content, stamp_millis, is_publisher }
    }
}

/// The identity a chat client was assigned.
#[derive(Debug, Clone)]
pub struct ClientIdentity {
    /// The user id.
    pub uid: u32,
    /// The chosen display name, once set.
    pub name: Option<String>,
}

/// A chat client, keyed by (identity, request id).
#[derive(Debug, Clone)]
pub struct ChatClient {
    /// Remote identity of the client.
    pub ip: String,
    /// Client-supplied request id.
    pub rid: String,
    /// The identity assigned to it.
    pub identity: ClientIdentity,
}

/// A message as handed back to a poller, with the sender resolved to a
/// name when one was chosen and to the identity otherwise.
#[derive(Debug, Clone)]
pub struct ChatMessageOut {
    /// The message text.
    pub content: String,
    /// When the message arrived, in milliseconds.
    pub stamp_millis: i64,
    /// Whether the publisher sent it.
    pub is_publisher: bool,
    /// The sender's chosen name, when one was set.
    pub name: Option<String>,
    /// The sender's identity, when no name was set.
    pub ip: Option<String>,
}

/// Messages are kept in non-decreasing time order.
pub open spec fn sorted_by_stamp(ms: Seq<ChatEntry>) -> bool {
    forall|i: int, j: int|
        0 <= i < j < ms.len() ==> (#[trigger] ms[i]).stamp_millis <= (#[trigger] ms[j]).stamp_millis
}

/// No two chat clients share a key.
pub open spec fn chat_clients_wf(cs: Seq<ChatClient>) -> bool {
    forall|i: int, j: int|
        0 <= i < j < cs.len() ==> !((#[trigger] cs[i]).ip@ == (#[trigger] cs[j]).ip@ && cs[i].rid@
            == cs[j].rid@)
}

/// Whether some client already chose this name.
pub open spec fn name_taken(cs: Seq<ChatClient>, n: Seq<char>) -> bool {
    exists|i: int|
        0 <= i < cs.len() && ((#[trigger] cs[i]).identity.name matches Some(m) && m@ == n)
}

/// Whether a client with this key exists.
pub open spec fn has_chat_client(cs: Seq<ChatClient>, ip: Seq<char>, rid: Seq<char>) -> bool {
    exists|i: int| 0 <= i < cs.len() && (#[trigger] cs[i]).ip@ == ip && cs[i].rid@ == rid
}

/// The user id that follows `uid`, wrapping at the type's width.
pub open spec fn next_uid_after(uid: u32) -> u32 {
    if uid == u32::MAX {
        0
    } else {
        (uid + 1) as u32
    }
}

/// The first client holding this user id, scanning from the front.
pub open spec fn uid_client(cs: Seq<ChatClient>, uid: u32) -> Option<ChatClient>
    decreases cs.len(),
{
    if cs.len() == 0 {
        None
    } else if cs[0].identity.uid == uid {
        Some(cs[0])
    } else {
        uid_client(cs.subrange(1, cs.len() as int), uid)
    }
}

/// Scanning past clients with other user ids does not change what
/// `uid_client` finds.
proof fn lemma_uid_client_prefix(cs: Seq<ChatClient>, uid: u32, i: int)
    requires
        0 <= i <= cs.len(),
        forall|j: int| 0 <= j < i ==> (#[trigger] cs[j]).identity.uid != uid,
    ensures
        uid_client(cs, uid) == uid_client(cs.subrange(i, cs.len() as int), uid),
    decreases i,
{
    if i > 0 {
        let tail = cs.subrange(1, cs.len() as int);
        assert forall|j: int| 0 <= j < i - 1 implies (#[trigger] tail[j]).identity.uid != uid by {
            assert(tail[j] == cs[j + 1]);
        }
        lemma_uid_client_prefix(tail, uid, i - 1);
        assert(tail.subrange(i - 1, tail.len() as int) =~= cs.subrange(i, cs.len() as int));
    } else {
        assert(cs.subrange(0, cs.len() as int) =~= cs);
    }
}

/// How a message's sender relates to the client tables around one
/// append: an already-known key keeps its identity and the tables;
/// an unknown key is registered under the next user id.
pub open spec fn sender_identity(
    pre: ChatDatabaseInner,
    post: ChatDatabaseInner,
    ip: Seq<char>,
    rid: Seq<char>,
    uid: u32,
) -> bool {
    if has_chat_client(pre.clients@, ip, rid) {
        &&& post.clients == pre.clients
        &&& post.next_uid == pre.next_uid
        &&& exists|i: int|
            {
                let c = #[trigger] pre.clients@[i];
                0 <= i < pre.clients@.len() && c.ip@ == ip && c.rid@ == rid && c.identity.uid
                    == uid
            }
    } else {
        let c = post.clients@.last();
        {
            &&& post.next_uid == next_uid_after(pre.next_uid)
            &&& uid == post.next_uid
            &&& post.clients@.len() == pre.clients@.len() + 1
            &&& post.clients@ == pre.clients@.push(c)
            &&& c.ip@ == ip
            &&& c.rid@ == rid
            &&& c.identity.uid == uid
            &&& c.identity.name is None
        }
    }
}

/// What a name query reports: a name some client with the key chose,
/// or nothing when no client with the key chose one.
pub open spec fn name_reported(
    cs: Seq<ChatClient>,
    ip: Seq<char>,
    rid: Seq<char>,
    reported: Option<String>,
) -> bool {
    match reported {
        Some(n) => exists|i: int|
            0 <= i < cs.len() && (#[trigger] cs[i]).ip@ == ip && cs[i].rid@ == rid && (
            cs[i].identity.name matches Some(m) && m@ == n@),
        None => forall|i: int|
            0 <= i < cs.len() && (#[trigger] cs[i]).ip@ == ip && cs[i].rid@ == rid
                ==> cs[i].identity.name is None,
    }
}

/// A poll row resolves its sender: the chosen name when the sender's
/// client chose one, the sender's identity otherwise, and nothing for
/// an unknown user id.
pub open spec fn sender_resolved(cs: Seq<ChatClient>, uid: u32, row: ChatMessageOut) -> bool {
    match uid_client(cs, uid) {
        Some(c) => match c.identity.name {
            Some(m) => (row.name matches Some(n) && n@ == m@) && row.ip is None,
            None => row.name is None && (row.ip matches Some(p) && p@ == c.ip@),
        },
        None => row.name is None && row.ip is None,
    }
}

/// The chat log and its clients.
pub struct ChatDatabaseInner {
    /// All messages, in non-decreasing time order.
    pub messages: Vec<ChatEntry>,
    /// All clients that ever spoke or chose a name, in creation order.
    pub clients: Vec<ChatClient>,
    /// The user id most recently handed out.
    pub next_uid: u32,
}

impl ChatDatabaseInner {
    /// Well-formedness: messages time-ordered, client keys unique.
    pub open spec fn wf(&self) -> bool {
        sorted_by_stamp(self.messages@) && chat_clients_wf(self.clients@)
    }

    /// An empty log.  The first user id is drawn at random from a fixed
    /// range.
    pub fn new() -> (r: Self)
        ensures
            r.wf(),
            r.messages@.len() == 0,
            r.clients@.len() == 0,
            114514 <= r.next_uid < 1919810,
    {
        let uid = crate::rng::rand_below(1919810 - 114514) as u32 + 114514;
        Self { messages: Vec::new(), clients: Vec::new(), next_uid: uid }
    }

    /// Clears the log and draws a fresh starting user id.
    pub fn reset(&mut self)
        ensures
            final(self).wf(),
            final(self).messages@.len() == 0,
            final(self).clients@.len() == 0,
            114514 <= final(self).next_uid < 1919810,
    {
        let uid = crate::rng::rand_below(1919810 - 114514) as u32 + 114514;
        self.messages.clear();
        self.clients.clear();
        self.next_uid = uid;
    }

    /// The index of the client with the given key, if any.
    fn find_client(&self, ip: &str, rid: &str) -> (r: Option<usize>)
        ensures
            match r {
                Some(i) => i < self.clients@.len() && self.clients@[i as int].ip@ == ip@
                    && self.clients@[i as int].rid@ == rid@,
                None => !has_chat_client(self.clients@, ip@, rid@),
            },
    {
        let n = self.clients.len();
        let mut i: usize = 0;
        while i < n
            invariant
                n == self.clients@.len(),
                i <= n,
                forall|j: int|
                    0 <= j < i ==> !((#[trigger] self.clients@[j]).ip@ == ip@
                        && self.clients@[j].rid@ == rid@),
            decreases n - i,
        {
            let c = &self.clients[i];
            if str_eq(c.ip.as_str(), ip) && str_eq(c.rid.as_str(), rid) {
                return Some(i);
            }
            i += 1;
        }
        None
    }

    /// The user id of the client with this key, creating an anonymous
    /// client when none exists yet.
    fn uid_for(&mut self, ip: String, rid: String) -> (r: u32)
        requires
            old(self).wf(),
        ensures
            final(self).wf(),
            final(self).messages == old(self).messages,
            has_chat_client(old(self).clients@, ip@, rid@) ==> {
                &&& final(self).clients == old(self).clients
                &&& final(self).next_uid == old(self).next_uid
                &&& exists|i: int|
                    {
                        let c = #[trigger] final(self).clients@[i];
                        0 <= i < final(self).clients@.len() && c.ip@ == ip@ && c.rid@ == rid@
                            && c.identity.uid == r
                    }
            },
            !has_chat_client(old(self).clients@, ip@, rid@) ==> {
                let c = final(self).clients@.last();
                {
                    &&& final(self).next_uid == next_uid_after(old(self).next_uid)
                    &&& r == final(self).next_uid
                    &&& final(self).clients@.len() == old(self).clients@.len() + 1
                    &&& final(self).clients@ == old(self).clients@.push(c)
                    &&& c.ip@ == ip@
                    &&& c.rid@ == rid@
                    &&& c.identity.uid == r
                    &&& c.identity.name is None
                }
            },
    {
        match self.find_client(ip.as_str(), rid.as_str()) {
            Some(i) => {
                proof {
                    assert(has_chat_client(self.clients@, ip@, rid@));
                }
                self.clients[i].identity.uid
            },
            None => {
                let uid = if self.next_uid == u32::MAX {
                    0
                } else {
                    self.next_uid + 1
                };
                self.next_uid = uid;
                let ghost cs0 = self.clients@;
                self.clients.push(
                    ChatClient { ip, rid, identity: ClientIdentity { uid, name: None } },
                );
                proof {
                    assert forall|i: int, j: int|
                        0 <= i < j < self.clients@.len() implies !((#[trigger] self.clients@[i]).ip@
                        == (#[trigger] self.clients@[j]).ip@ && self.clients@[i].rid@
                        == self.clients@[j].rid@) by {
                        if j == self.clients@.len() - 1 {
                            assert(!(cs0[i].ip@ == ip@ && cs0[i].rid@ == rid@));
                        }
                    }
                }
                uid
            },
        }
    }

    /// Appends a message at its place in time order.  The sender is the
    /// client with this key, created anonymously when absent.
    pub fn add_entry(&mut self, ip: String, rid: String, content: String, is_publisher: bool, stamp_millis: i64)
        requires
            old(self).wf(),
        ensures
            final(self).wf(),
            exists|pos: int|
                {
                    &&& 0 <= pos <= old(self).messages@.len()
                    &&& (forall|k: int|
                        0 <= k < pos ==> (#[trigger] old(self).messages@[k]).stamp_millis
                            <= stamp_millis)
                    &&& (forall|k: int|
                        pos <= k < old(self).messages@.len() ==> (#[trigger] old(
                            self,
                        ).messages@[k]).stamp_millis > stamp_millis)
                    &&& final(self).messages@ == old(self).messages@.insert(
                        pos,
                        final(self).messages@[pos],
                    )
                    &&& final(self).messages@[pos].content@ == content@
                    &&& final(self).messages@[pos].stamp_millis == stamp_millis
                    &&& final(self).messages@[pos].is_publisher == is_publisher
                    &&& sender_identity(
                        *old(self),
                        *final(self),
                        ip@,
                        rid@,
                        final(self).messages@[pos].uid,
                    )
                },
            has_chat_client(final(self).clients@, ip@, rid@),
    {
        let uid = self.uid_for(ip, rid);
        let entry = ChatEntry::new(uid, content, stamp_millis, is_publisher);
        let n = self.messages.len();
        let mut pos: usize = 0;
        while pos < n && self.messages[pos].stamp_millis <= stamp_millis
            invariant
                n == self.messages@.len(),
                pos <= n,
                forall|k: int|
                    0 <= k < pos ==> (#[trigger] self.messages@[k]).stamp_millis <= stamp_millis,
            decreases n - pos,
        {
            pos += 1;
        }
        let ghost ms0 = self.messages@;
        proof {
            assert forall|k: int|
                pos <= k < ms0.len() implies (#[trigger] ms0[k]).stamp_millis > stamp_millis by {
                if pos < ms0.len() {
                    assert(ms0[pos as int].stamp_millis > stamp_millis);
                }
            }
        }
        self.messages.insert(pos, entry);
        proof {
            let ms1 = self.messages@;
            assert(ms1[pos as int].stamp_millis == stamp_millis);
            assert forall|i: int, j: int|
                0 <= i < j < ms1.len() implies (#[trigger] ms1[i]).stamp_millis <= (
            #[trigger] ms1[j]).stamp_millis by {
                let i0: int = if i < pos {
                    i
                } else {
                    i - 1
                };
                let j0: int = if j < pos {
                    j
                } else {
                    j - 1
                };
                if i != pos && j != pos {
                    assert(ms1[i] == ms0[i0] && ms1[j] == ms0[j0]);
                } else if i == pos {
                    assert(ms1[j] == ms0[j0] && j0 >= pos);
                } else {
                    assert(ms1[i] == ms0[i0] && i0 < pos);
                }
            }
        }
    }

    /// Records a chosen name for this client.  Refused when the name is
    /// already taken or the client already chose one; an absent client
    /// is created with the name.
    pub fn set_client_name(&mut self, ip: &str, rid: &str, name: String) -> (r: bool)
        requires
            old(self).wf(),
        ensures
            final(self).wf(),
            final(self).messages == old(self).messages,
            r == !(name_taken(old(self).clients@, name@) || (exists|i: int|
                0 <= i < old(self).clients@.len() && (#[trigger] old(self).clients@[i]).ip@ == ip@
                    && old(self).clients@[i].rid@ == rid@
                    && old(self).clients@[i].identity.name is Some)),
            !r ==> final(self).clients == old(self).clients,
            !r ==> final(self).next_uid == old(self).next_uid,
            r ==> (exists|i: int|
                {
                    let c = #[trigger] final(self).clients@[i];
                    0 <= i < final(self).clients@.len() && c.ip@ == ip@ && c.rid@ == rid@ && (
                    c.identity.name matches Some(m) && m@ == name@)
                }),
            r ==> name_taken(final(self).clients@, name@),
    {
        // a taken name is refused outright
        let n = self.clients.len();
        let mut i: usize = 0;
        while i < n
            invariant
                old(self).wf(),
                self.messages == old(self).messages,
                self.clients == old(self).clients,
                self.next_uid == old(self).next_uid,
                n == self.clients@.len(),
                i <= n,
                forall|j: int|
                    0 <= j < i ==> !((#[trigger] self.clients@[j]).identity.name matches Some(m)
                        && m@ == name@),
            decreases n - i,
        {
            let taken = match &self.clients[i].identity.name {
                Some(m) => str_eq(m.as_str(), name.as_str()),
                None => false,
            };
            if taken {
                proof {
                    assert(name_taken(self.clients@, name@));
                }
                return false;
            }
            i += 1;
        }
        assert(!name_taken(self.clients@, name@));
        match self.find_client(ip, rid) {
            Some(j) => {
                if self.clients[j].identity.name.is_some() {
                    return false;
                }
                let ghost cs0 = self.clients@;
                self.clients[j].identity.name = Some(name);
                proof {
                    assert forall|a: int, b: int|
                        0 <= a < b < self.clients@.len() implies !((#[trigger] self.clients@[a]).ip@
                        == (#[trigger] self.clients@[b]).ip@ && self.clients@[a].rid@
                        == self.clients@[b].rid@) by {
                        assert(self.clients@[a].ip@ == cs0[a].ip@ && self.clients@[a].rid@
                            == cs0[a].rid@);
                        assert(self.clients@[b].ip@ == cs0[b].ip@ && self.clients@[b].rid@
                            == cs0[b].rid@);
                    }
                    assert(self.clients@[j as int].identity.name matches Some(m) && m@ == name@);
                }
                true
            },
            None => {
                let uid = if self.next_uid == u32::MAX {
                    0
                } else {
                    self.next_uid + 1
                };
                self.next_uid = uid;
                let ghost cs0 = self.clients@;
                self.clients.push(
                    ChatClient {
                        ip: String::from_str(ip),
                        rid: String::from_str(rid),
                        identity: ClientIdentity { uid, name: Some(name) },
                    },
                );
                proof {
                    assert forall|a: int, b: int|
                        0 <= a < b < self.clients@.len() implies !((#[trigger] self.clients@[a]).ip@
                        == (#[trigger] self.clients@[b]).ip@ && self.clients@[a].rid@
                        == self.clients@[b].rid@) by {
                        if b == self.clients@.len() - 1 {
                            assert(!(cs0[a].ip@ == ip@ && cs0[a].rid@ == rid@));
                        }
                    }
                    let last = self.clients@.len() - 1;
                    assert(self.clients@[last].identity.name matches Some(m) && m@ == name@);
                }
                true
            },
        }
    }

    /// The name this client chose, if any.
    pub fn get_client_name(&self, ip: &str, rid: &str) -> (r: Option<String>)
        requires
            self.wf(),
        ensures
            name_reported(self.clients@, ip@, rid@, r),
    {
        match self.find_client(ip, rid) {
            Some(i) => match &self.clients[i].identity.name {
                Some(n) => Some(n.clone()),
                None => {
                    proof {
                        // keys are unique, so the unnamed client found is
                        // the only one carrying this key
                        assert forall|j: int|
                            0 <= j < self.clients@.len() && (#[trigger] self.clients@[j]).ip@
                                == ip@ && self.clients@[j].rid@ == rid@ implies self.clients@[j].identity.name is None by {
                            if j < i {
                                assert(!(self.clients@[j].ip@ == self.clients@[i as int].ip@
                                    && self.clients@[j].rid@ == self.clients@[i as int].rid@));
                            } else if j > i {
                                assert(!(self.clients@[i as int].ip@ == self.clients@[j].ip@
                                    && self.clients@[i as int].rid@ == self.clients@[j].rid@));
                            }
                        }
                    }
                    None
                },
            },
            None => None,
        }
    }

    /// The name of the first client holding this user id, if any.
    pub fn name_of_uid(&self, uid: u32) -> (r: Option<String>)
        ensures
            match uid_client(self.clients@, uid) {
                Some(c) => match c.identity.name {
                    Some(m) => r matches Some(n) && n@ == m@,
                    None => r is None,
                },
                None => r is None,
            },
    {
        let n = self.clients.len();
        let mut i: usize = 0;
        while i < n
            invariant
                n == self.clients@.len(),
                i <= n,
                forall|j: int| 0 <= j < i ==> (#[trigger] self.clients@[j]).identity.uid != uid,
            decreases n - i,
        {
            if self.clients[i].identity.uid == uid {
                proof {
                    lemma_uid_client_prefix(self.clients@, uid, i as int);
                    assert(self.clients@.subrange(i as int, n as int)[0] == self.clients@[
                        i as int]);
                }
                match &self.clients[i].identity.name {
                    Some(m) => {
                        return Some(m.clone());
                    },
                    None => {
                        return None;
                    },
                }
            }
            i += 1;
        }
        proof {
            lemma_uid_client_prefix(self.clients@, uid, n as int);
            assert(self.clients@.subrange(n as int, n as int) =~= Seq::<ChatClient>::empty());
        }
        None
    }

    /// The identity of the first client holding this user id, if any.
    pub fn ip_of_uid(&self, uid: u32) -> (r: Option<String>)
        ensures
            match uid_client(self.clients@, uid) {
                Some(c) => r matches Some(p) && p@ == c.ip@,
                None => r is None,
            },
    {
        let n = self.clients.len();
        let mut i: usize = 0;
        while i < n
            invariant
                n == self.clients@.len(),
                i <= n,
                forall|j: int| 0 <= j < i ==> (#[trigger] self.clients@[j]).identity.uid != uid,
            decreases n - i,
        {
            if self.clients[i].identity.uid == uid {
                proof {
                    lemma_uid_client_prefix(self.clients@, uid, i as int);
                    assert(self.clients@.subrange(i as int, n as int)[0] == self.clients@[
                        i as int]);
                }
                return Some(self.clients[i].ip.clone());
            }
            i += 1;
        }
        proof {
            lemma_uid_client_prefix(self.clients@, uid, n as int);
            assert(self.clients@.subrange(n as int, n as int) =~= Seq::<ChatClient>::empty());
        }
        None
    }

    /// How many distinct users the log has seen.
    pub fn size(&self) -> (r: usize)
        ensures
            r == self.clients@.len(),
    {
        self.clients.len()
    }

    /// The first index whose message is later than `stamp_millis`.
    fn partition_index(&self, stamp_millis: i64) -> (r: usize)
        requires
            self.wf(),
        ensures
            r <= self.messages@.len(),
            forall|k: int|
                0 <= k < r ==> (#[trigger] self.messages@[k]).stamp_millis <= stamp_millis,
            forall|k: int|
                r <= k < self.messages@.len() ==> (#[trigger] self.messages@[k]).stamp_millis
                    > stamp_millis,
    {
        let n = self.messages.len();
        let mut pos: usize = 0;
        while pos < n && self.messages[pos].stamp_millis <= stamp_millis
            invariant
                n == self.messages@.len(),
                pos <= n,
                forall|k: int|
                    0 <= k < pos ==> (#[trigger] self.messages@[k]).stamp_millis <= stamp_millis,
            decreases n - pos,
        {
            pos += 1;
        }
        proof {
            assert forall|k: int|
                pos <= k < self.messages@.len() implies (#[trigger] self.messages@[k]).stamp_millis
                > stamp_millis by {
                if (pos as int) < self.messages@.len() {
                    assert(self.messages@[pos as int].stamp_millis > stamp_millis);
                }
            }
        }
        pos
    }

    /// The range of message indices a poll returns: the latest ten when
    /// the poller has no history (`stamp_millis < 0`); the ten before
    /// the stamp when `prev`; everything after the first message past
    /// the stamp otherwise.
    pub open spec fn poll_range(ms: Seq<ChatEntry>, stamp_millis: i64, prev: bool, idx: int) -> (
        int,
        int,
    ) {
        if stamp_millis < 0 {
            (if ms.len() < 10 {
                0
            } else {
                ms.len() - 10
            }, ms.len() as int)
        } else if prev {
            (if idx >= 10 {
                idx - 10
            } else {
                0
            }, idx)
        } else {
            if idx < ms.len() {
                (idx + 1, ms.len() as int)
            } else {
                (ms.len() as int, ms.len() as int)
            }
        }
    }

    /// What a poll returns: `idx` is the partition point of the stamp,
    /// and the rows mirror the entries of the polled range in order,
    /// each with its sender resolved against the client table.
    pub open spec fn poll_result(
        ms: Seq<ChatEntry>,
        cs: Seq<ChatClient>,
        stamp_millis: i64,
        prev: bool,
        idx: int,
        r: Seq<ChatMessageOut>,
    ) -> bool {
        &&& 0 <= idx <= ms.len()
        &&& (forall|k: int| 0 <= k < idx ==> (#[trigger] ms[k]).stamp_millis <= stamp_millis)
        &&& (forall|k: int|
            idx <= k < ms.len() ==> (#[trigger] ms[k]).stamp_millis > stamp_millis)
        &&& {
            let range = Self::poll_range(ms, stamp_millis, prev, idx);
            {
                &&& r.len() == range.1 - range.0
                &&& (forall|k: int|
                    0 <= k < r.len() ==> {
                        let e = ms[range.0 + k];
                        {
                            &&& (#[trigger] r[k]).content@ == e.content@
                            &&& r[k].stamp_millis == e.stamp_millis
                            &&& r[k].is_publisher == e.is_publisher
                            &&& sender_resolved(cs, e.uid, r[k])
                        }
                    })
            }
        }
    }

    /// `r` is what some poll at `stamp_millis` returns over `ms` with
    /// clients `cs`.
    pub open spec fn polled(
        ms: Seq<ChatEntry>,
        cs: Seq<ChatClient>,
        stamp_millis: i64,
        prev: bool,
        r: Seq<ChatMessageOut>,
    ) -> bool {
        exists|idx: int| #[trigger] Self::poll_result(ms, cs, stamp_millis, prev, idx, r)
    }

    /// The messages at and after `stamp_millis` (or before it, when
    /// `prev` is set), each with its sender resolved.
    pub fn get_chat_from(&self, stamp_millis: i64, prev: bool) -> (r: Vec<ChatMessageOut>)
        requires
            self.wf(),
        ensures
            Self::polled(self.messages@, self.clients@, stamp_millis, prev, r@),
    {
        let idx = self.partition_index(stamp_millis);
        let n = self.messages.len();
        let (lo, hi): (usize, usize) = if stamp_millis < 0 {
            (if n < 10 {
                0
            } else {
                n - 10
            }, n)
        } else if prev {
            (if idx >= 10 {
                idx - 10
            } else {
                0
            }, idx)
        } else {
            if idx < n {
                (idx + 1, n)
            } else {
                (n, n)
            }
        };
        let mut out: Vec<ChatMessageOut> = Vec::new();
        let mut k: usize = lo;
        while k < hi
            invariant
                self.wf(),
                lo <= k <= hi <= self.messages@.len(),
                out@.len() == k - lo,
                forall|t: int|
                    0 <= t < out@.len() ==> {
                        let e = self.messages@[lo + t];
                        {
                            &&& (#[trigger] out@[t]).content@ == e.content@
                            &&& out@[t].stamp_millis == e.stamp_millis
                            &&& out@[t].is_publisher == e.is_publisher
                            &&& sender_resolved(self.clients@, e.uid, out@[t])
                        }
                    },
            decreases hi - k,
    {
            let e = &self.messages[k];
            let name = self.name_of_uid(e.uid);
            let ip = match &name {
                Some(_) => None,
                None => self.ip_of_uid(e.uid),
            };
            out.push(
                ChatMessageOut {
                    content: e.content.clone(),
                    stamp_millis: e.stamp_millis,
                    is_publisher: e.is_publisher,
                    name,
                    ip,
                },
            );
            k += 1;
        }
        proof {
            assert(Self::poll_result(
                self.messages@,
                self.clients@,
                stamp_millis,
                prev,
                idx as int,
                out@,
            ));
        }
        out
    }
}

} // verus!
