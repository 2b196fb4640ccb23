use vstd::prelude::*;

use crate::document::Document;
use crate::event::SocketMessage;
use crate::id::{ids_generated, Id, IdGenerator};
use crate::wire::{parse_document, ser_document};

verus! {

/// One connected peer, named by its identifier; the transport half of
/// the connection lives with the host.
#[derive(Debug, Clone, Copy, PartialEq, Eq, Structural)]
pub struct ClientHandler {
    pub id: Id,
}

impl ClientHandler {
    pub fn new(id: Id) -> (h: Self)
        ensures
            h.id == id,
    {
        ClientHandler { id }
    }

    pub fn id(&self) -> (r: Id)
        ensures
            r == self.id,
    {
        self.id
    }
}

/// What one frame from a peer means to the relay.
#[derive(Debug, Clone, PartialEq)]
pub enum WsMessage {
    /// A parsable document, together with the raw text it arrived as.
    Document { recipient: Id, json: String, document: Document },
    /// The peer disconnected or sent a frame the relay does not take.
    Closed { recipient: Id },
    /// Text that does not parse as a document.
    DeserializeError { recipient: Id },
}

/// The identifiers in `ids` other than `sender`, in order.
pub open spec fn broadcast_targets(ids: Seq<Id>, sender: Id) -> Seq<Id>
    decreases ids.len(),
{
    if ids.len() == 0 {
        Seq::empty()
    } else {
        let rest = broadcast_targets(ids.drop_last(), sender);
        if ids.last() == sender {
            rest
        } else {
            rest.push(ids.last())
        }
    }
}

/// The relay's authoritative state: the latest document and the
/// connected peers. A single task owns it; every decision the relay
/// makes is a function of this state and one event.
pub struct State {
    pub latest_document: Document,
    pub handlers: Vec<ClientHandler>,
    pub ids: IdGenerator,
}

impl State {
    /// No two connected peers share an identifier, and every
    /// identifier came from the relay's own well.
    pub open spec fn wf(self) -> bool {
        ids_generated(self.handlers@.map_values(|h: ClientHandler| h.id), self.ids)
    }

    pub fn new() -> (s: Self)
        ensures
            s.wf(),
            s.handlers@.len() == 0,
            s.latest_document.elements@.len() == 0,
    {
        State {
            latest_document: Document::default(),
            handlers: Vec::new(),
            ids: IdGenerator::new(),
        }
    }

    /// Whether a peer with this identifier is connected.
    pub fn has_client(&self, id: Id) -> (r: bool)
        ensures
            r == exists|i: int|
                0 <= i < self.handlers@.len() && (#[trigger] self.handlers@[i]).id == id,
    {
        let mut i: usize = 0;
        let n = self.handlers.len();
        while i < n
            invariant
                i <= n,
                n == self.handlers@.len(),
                forall|j: int| 0 <= j < i ==> (#[trigger] self.handlers@[j]).id != id,
            decreases n - i,
        {
            if self.handlers[i].id.0 == id.0 {
                return true;
            }
            i = i + 1;
        }
        false
    }

    /// A new connection: issues the peer's identifier and serialises
    /// the latest document for it. The peer only joins the fan-out
    /// set once the host confirms the greeting was sent.
    pub fn connect_client(&mut self) -> (r: Option<(Id, Vec<u8>)>)
        requires
            old(self).wf(),
        ensures
            final(self).wf(),
            final(self).handlers@ == old(self).handlers@,
            final(self).latest_document == old(self).latest_document,
            old(self).ids.next < u64::MAX ==> (r matches Some((id, p)) && id.0 == old(self).ids.next && final(self).ids.next == old(self).ids.next + 1 && p@ == ser_document(
                old(self).latest_document.wire(),
            ) && (forall|i: int|
                0 <= i < final(self).handlers@.len() ==> (#[trigger] final(self).handlers@[i]).id != id)),
            old(self).ids.next == u64::MAX ==> r is None && *final(self) == *old(self),
    {
        if !self.ids.can_issue() {
            return None;
        }
        let id = self.ids.fresh();
        let payload = self.latest_document.to_json();
        proof {
            assert forall|i: int|
                0 <= i < self.handlers@.len() implies (#[trigger] self.handlers@[i]).id != id by {
                assert(self.handlers@.map_values(|h: ClientHandler| h.id)[i]
                    == self.handlers@[i].id);
            }
        }
        Some((id, payload))
    }

    /// The host reports that the greeting reached the new peer: it
    /// joins the fan-out set.
    pub fn confirm_client(&mut self, id: Id)
        requires
            old(self).wf(),
            id.0 < old(self).ids.next,
            forall|i: int|
                0 <= i < old(self).handlers@.len() ==> (#[trigger] old(self).handlers@[i]).id
                    != id,
        ensures
            final(self).wf(),
            final(self).handlers@ == old(self).handlers@.push(ClientHandler { id }),
            final(self).latest_document == old(self).latest_document,
            final(self).ids == old(self).ids,
    {
        self.handlers.push(ClientHandler { id });
        proof {
            assert(self.handlers@.map_values(|h: ClientHandler| h.id) =~= old(self).handlers@.map_values(|h: ClientHandler| h.id).push(id));
            let pre_ids = old(self).handlers@.map_values(|h: ClientHandler| h.id);
            assert forall|i: int| 0 <= i < pre_ids.len() implies (#[trigger] pre_ids[i])
                != id by {
                assert(pre_ids[i] == old(self).handlers@[i].id);
            }
        }
    }

    /// Classifies one frame from a peer, as the relay's read half
    /// does: only a text frame whose body parses as a document (and
    /// for which the identifier well still has room) carries weight.
    pub fn read_message(&mut self, recipient: Id, frame: Option<SocketMessage>) -> (m: WsMessage)
        ensures
            final(self).handlers@ == old(self).handlers@,
            final(self).latest_document == old(self).latest_document,
            final(self).ids.next >= old(self).ids.next,
            (match frame {
                Some(SocketMessage::Text(s)) => {
                    match parse_document(vstd::utf8::encode_utf8(s@)) {
                        Some(w) => {
                            if old(self).ids.next + w.elements.len() <= u64::MAX {
                                (m matches WsMessage::Document { recipient: rc, json, document }
                                    && rc == recipient && json@ == s@ && document.wire() == w)
                            } else {
                                m == (WsMessage::DeserializeError { recipient })
                            }
                        },
                        None => m == (WsMessage::DeserializeError { recipient }),
                    }
                },
                Some(SocketMessage::Bytes(_)) => m == (WsMessage::Closed { recipient }),
                None => m == (WsMessage::Closed { recipient }),
            }),
    {
        let text = match frame {
            Some(SocketMessage::Text(s)) => s,
            Some(SocketMessage::Bytes(_)) => {
                return WsMessage::Closed { recipient };
            },
            None => {
                return WsMessage::Closed { recipient };
            },
        };

        match Document::from_json(text.as_str().as_bytes(), &mut self.ids) {
            Some(document) => WsMessage::Document { recipient, json: text, document },
            None => WsMessage::DeserializeError { recipient },
        }
    }

    /// Handles one classified message. A document replaces the
    /// authoritative copy and is echoed, byte for byte, to every
    /// other peer — the sender gets nothing back; a misbehaving or
    /// departed peer is dropped from the fan-out set.
    pub fn client_received(&mut self, m: WsMessage) -> (r: Option<(String, Vec<Id>)>)
        requires
            old(self).wf(),
        ensures
            final(self).wf(),
            final(self).ids == old(self).ids,
            (match m {
                WsMessage::Document { recipient, json, document } => {
                    &&& final(self).latest_document == document
                    &&& final(self).handlers@ == old(self).handlers@
                    &&& r matches Some((payload, targets)) && payload == json && targets@
                        == broadcast_targets(
                        old(self).handlers@.map_values(|h: ClientHandler| h.id),
                        recipient,
                    )
                },
                WsMessage::Closed { recipient } => {
                    &&& r is None
                    &&& final(self).latest_document == old(self).latest_document
                    &&& removed_client(old(self).handlers@, final(self).handlers@, recipient)
                },
                WsMessage::DeserializeError { recipient } => {
                    &&& r is None
                    &&& final(self).latest_document == old(self).latest_document
                    &&& removed_client(old(self).handlers@, final(self).handlers@, recipient)
                },
            }),
    {
        match m {
            WsMessage::Document { recipient, json, document } => {
                self.latest_document = document;
                let mut targets: Vec<Id> = Vec::new();
                let mut i: usize = 0;
                let n = self.handlers.len();
                while i < n
                    invariant
                        i <= n,
                        n == self.handlers@.len(),
                        targets@ == broadcast_targets(
                            self.handlers@.map_values(|h: ClientHandler| h.id).take(i as int),
                            recipient,
                        ),
                    decreases n - i,
                {
                    let ghost ids = self.handlers@.map_values(|h: ClientHandler| h.id);
                    proof {
                        assert(ids[i as int] == self.handlers@[i as int].id);
                        assert(ids.take(i as int + 1).drop_last() =~= ids.take(i as int));
                        assert(ids.take(i as int + 1).last() == ids[i as int]);
                    }
                    if self.handlers[i].id.0 != recipient.0 {
                        targets.push(self.handlers[i].id);
                    }
                    i = i + 1;
                }
                proof {
                    assert(self.handlers@.map_values(|h: ClientHandler| h.id).take(n as int)
                        =~= self.handlers@.map_values(|h: ClientHandler| h.id));
                }
                Some((json, targets))
            },
            WsMessage::Closed { recipient } => {
                self.remove_client(recipient);
                None
            },
            WsMessage::DeserializeError { recipient } => {
                self.remove_client(recipient);
                None
            },
        }
    }

    /// Drops the peer with the given identifier from the fan-out set.
    fn remove_client(&mut self, id: Id)
        requires
            old(self).wf(),
        ensures
            final(self).wf(),
            final(self).latest_document == old(self).latest_document,
            final(self).ids == old(self).ids,
            removed_client(old(self).handlers@, final(self).handlers@, id),
    {
        let mut i: usize = 0;
        let n = self.handlers.len();
        while i < n
            invariant
                i <= n,
                n == self.handlers@.len(),
                self.handlers@ == old(self).handlers@,
                self.latest_document == old(self).latest_document,
                self.ids == old(self).ids,
                old(self).wf(),
                forall|j: int| 0 <= j < i ==> (#[trigger] self.handlers@[j]).id != id,
            decreases n - i,
        {
            if self.handlers[i].id.0 == id.0 {
                let ghost pre = self.handlers@;
                self.handlers.remove(i);
                proof {
                    assert(self.handlers@ =~= pre.remove(i as int));
                    let ids_pre = pre.map_values(|h: ClientHandler| h.id);
                    let ids_post = self.handlers@.map_values(|h: ClientHandler| h.id);
                    assert(pre == old(self).handlers@);
                    assert(old(self).wf());
                    assert(ids_pre =~= old(self).handlers@.map_values(
                        |h: ClientHandler| h.id,
                    ));
                    assert(ids_generated(
                        old(self).handlers@.map_values(|h: ClientHandler| h.id),
                        old(self).ids,
                    ));
                    assert(self.ids == old(self).ids);
                    assert(ids_generated(ids_pre, self.ids));
                    assert forall|k: int| 0 <= k < ids_post.len() implies (#[trigger] ids_post[k])
                        == (if k < i {
                        ids_pre[k]
                    } else {
                        ids_pre[k + 1]
                    }) by {
                        assert(ids_post[k] == self.handlers@[k].id);
                        if k < i {
                            assert(ids_pre[k] == pre[k].id);
                        } else {
                            assert(ids_pre[k + 1] == pre[k + 1].id);
                        }
                    }
                    assert forall|a: int|
                        0 <= a < ids_post.len() implies (#[trigger] ids_post[a]).0
                        < self.ids.next by {
                        if a < i {
                            assert(ids_post[a] == ids_pre[a]);
                        } else {
                            assert(ids_post[a] == ids_pre[a + 1]);
                        }
                    }
                    assert forall|a: int, b: int|
                        0 <= a < b < ids_post.len() implies ids_post[a] != ids_post[b] by {
                        let pa = if a < i {
                            a
                        } else {
                            a + 1
                        };
                        let pb = if b < i {
                            b
                        } else {
                            b + 1
                        };
                        assert(ids_post[a] == ids_pre[pa]);
                        assert(ids_post[b] == ids_pre[pb]);
                        assert(ids_pre[pa] != ids_pre[pb]);
                    }
                }
                return ;
            }
            i = i + 1;
        }
    }

    /// Shutdown: every peer leaves the fan-out set; the host closes
    /// each returned connection with its bounded timeout.
    pub fn stop(&mut self) -> (r: Vec<Id>)
        requires
            old(self).wf(),
        ensures
            final(self).wf(),
            final(self).handlers@.len() == 0,
            r@ == old(self).handlers@.map_values(|h: ClientHandler| h.id),
            final(self).latest_document == old(self).latest_document,
    {
        let mut r: Vec<Id> = Vec::new();
        let mut i: usize = 0;
        let n = self.handlers.len();
        while i < n
            invariant
                i <= n,
                n == self.handlers@.len(),
                self.handlers@ == old(self).handlers@,
                self.latest_document == old(self).latest_document,
                self.ids == old(self).ids,
                r@ =~= old(self).handlers@.map_values(|h: ClientHandler| h.id).take(i as int),
            decreases n - i,
        {
            r.push(self.handlers[i].id);
            proof {
                assert(r@ =~= old(self).handlers@.map_values(|h: ClientHandler| h.id).take(
                    i as int + 1,
                ));
            }
            i = i + 1;
        }
        self.handlers = Vec::new();
        proof {
            assert(old(self).handlers@.map_values(|h: ClientHandler| h.id).take(n as int) =~= old(self).handlers@.map_values(|h: ClientHandler| h.id));
            assert(self.handlers@.map_values(|h: ClientHandler| h.id) =~= Seq::<Id>::empty());
        }
        r
    }
}

/// `post` is `pre` with the first handler named `id` dropped, or
/// unchanged when none is connected under that identifier.
pub open spec fn removed_client(
    pre: Seq<ClientHandler>,
    post: Seq<ClientHandler>,
    id: Id,
) -> bool {
    if exists|i: int| 0 <= i < pre.len() && (#[trigger] pre[i]).id == id {
        exists|i: int|
            0 <= i < pre.len() && (#[trigger] pre[i]).id == id && post == pre.remove(i)
    } else {
        post == pre
    }
}

/// The echo goes to every other connected peer exactly once and never
/// back to the sender: among pairwise-distinct identifiers, filtering
/// the sender out keeps each other identifier once.
pub proof fn lemma_echo_targets(ids: Seq<Id>, sender: Id)
    requires
        forall|a: int, b: int| 0 <= a < b < ids.len() ==> ids[a] != ids[b],
    ensures
        !broadcast_targets(ids, sender).contains(sender),
        forall|x: Id|
            x != sender ==> (#[trigger] broadcast_targets(ids, sender).contains(x))
                == ids.contains(x),
        forall|a: int, b: int|
            0 <= a < b < broadcast_targets(ids, sender).len() ==> broadcast_targets(
                ids,
                sender,
            )[a] != broadcast_targets(ids, sender)[b],
    decreases ids.len(),
{
    let t = broadcast_targets(ids, sender);
    if ids.len() > 0 {
        let last = ids.last();
        let prev = ids.drop_last();
        lemma_echo_targets(prev, sender);
        let tprev = broadcast_targets(prev, sender);
        assert forall|x: Id| prev.contains(x) implies ids.contains(x) by {
            let w = choose|w: int| 0 <= w < prev.len() && prev[w] == x;
            assert(ids[w] == x);
        }
        assert forall|x: Id| x != sender && ids.contains(x) implies (prev.contains(x) || x
            == last) by {
            let w = choose|w: int| 0 <= w < ids.len() && ids[w] == x;
            if w < ids.len() - 1 {
                assert(prev[w] == x);
            }
        }
        if last != sender {
            assert(t == tprev.push(last));
            assert(!prev.contains(last));
            assert forall|x: Id| x != sender implies (#[trigger] t.contains(x)) == ids.contains(
                x,
            ) by {
                if t.contains(x) {
                    let w = choose|w: int| 0 <= w < t.len() && t[w] == x;
                    if w < tprev.len() {
                        assert(tprev[w] == x);
                        assert(tprev.contains(x));
                    } else {
                        assert(x == last);
                        assert(ids.contains(last));
                    }
                }
                if ids.contains(x) {
                    if x == last {
                        assert(t[t.len() - 1] == last);
                        assert(t.contains(x));
                    } else {
                        assert(prev.contains(x));
                        assert(tprev.contains(x));
                        let w = choose|w: int| 0 <= w < tprev.len() && tprev[w] == x;
                        assert(t[w] == x);
                        assert(t.contains(x));
                    }
                }
            }
            assert forall|a: int, b: int| 0 <= a < b < t.len() implies t[a] != t[b] by {
                if b < tprev.len() {
                    assert(t[a] == tprev[a] && t[b] == tprev[b]);
                } else {
                    assert(t[b] == last);
                    assert(t[a] == tprev[a]);
                    assert(tprev.contains(tprev[a]));
                    assert(!prev.contains(last));
                    if tprev[a] == last {
                        assert(prev.contains(last));
                    }
                }
            }
            assert(!t.contains(sender)) by {
                if t.contains(sender) {
                    let w = choose|w: int| 0 <= w < t.len() && t[w] == sender;
                    if w < tprev.len() {
                        assert(tprev.contains(sender));
                    }
                }
            }
        } else {
            assert(t == tprev);
            assert forall|x: Id| x != sender implies (#[trigger] t.contains(x)) == ids.contains(
                x,
            ) by {
                if ids.contains(x) {
                    assert(prev.contains(x) || x == last);
                    assert(prev.contains(x));
                }
                if t.contains(x) {
                    assert(prev.contains(x));
                }
            }
        }
    }
}

} // verus!
