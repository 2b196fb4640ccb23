use vstd::prelude::*;

use crate::document::Document;
use crate::event::{Event, SocketMessage, WsEvent};
use crate::id::IdGenerator;
use crate::outcome::Outcome;
use crate::wire::parse_document;

verus! {

use vstd::string::StringSliceAdditionalSpecFns;

/// Translates socket events: a text frame that parses as a document
/// becomes an authoritative replacement; binary frames, unparsable
/// text and transport errors are dropped.
#[derive(Debug, PartialEq)]
pub struct WebsocketHandler {}

impl Default for WebsocketHandler {
    fn default() -> (h: Self) {
        WebsocketHandler {  }
    }
}

impl WebsocketHandler {
    /// Handles one event. Exactly a received text frame whose body is
    /// a canonical document (and for which the identifier generator
    /// still has room) yields `UpdateDocument`; everything else yields
    /// nothing and leaves the generator alone.
    #[verifier::rlimit(100)]
    #[verifier::spinoff_prover]
    pub fn handle(&mut self, event: &Event, gen: &mut IdGenerator) -> (r: Outcome)
        ensures
            *final(self) == *old(self),
            final(gen).next >= old(gen).next,
            (r matches Outcome::UpdateDocument(d) ==> crate::id::ids_generated(
                d.elements@.map_values(|e: crate::element::Element| e.id),
                *final(gen),
            ) && (forall|i: int|
                0 <= i < d.elements@.len() ==> (#[trigger] d.elements@[i]).hovered() == false)
                && d.synchronized == true),
            (!(r matches Outcome::UpdateDocument(_)) ==> r matches Outcome::Noop),
            (!(event matches Event::WebSocket(_)) ==> (r matches Outcome::Noop && *final(gen)
                == *old(gen))),
            (match event {
                Event::WebSocket(WsEvent::Received(SocketMessage::Text(s))) => {
                    match parse_document(vstd::utf8::encode_utf8(s@)) {
                        Some(w) => {
                            if old(gen).next + w.elements.len() <= u64::MAX {
                                (r matches Outcome::UpdateDocument(d) && d.wire() == w
                                    && d.synchronized == true && final(gen).next == old(gen).next
                                    + w.elements.len() && d.elements@.len() == w.elements.len()
                                    && (forall|i: int|
                                    0 <= i < d.elements@.len() ==> (#[trigger] d.elements@[i]).id.0
                                        == old(gen).next + i) && (forall|i: int|
                                    0 <= i < d.elements@.len() ==> (#[trigger] d.elements@[i]).hovered()
                                        == false) && (forall|i: int|
                                    0 <= i < d.elements@.len() ==> crate::parse::element_from_wire(
                                        #[trigger] d.elements@[i],
                                        w.elements[i],
                                    )))
                            } else {
                                r == Outcome::Noop
                            }
                        },
                        None => r == Outcome::Noop && *final(gen) == *old(gen),
                    }
                },
                _ => r == Outcome::Noop && *final(gen) == *old(gen),
            }),
    {
        let text = match event {
            Event::WebSocket(WsEvent::Received(SocketMessage::Text(s))) => s,
            _ => {
                return Outcome::Noop;
            },
        };

        let ghost pre_gen = *gen;
        match Document::from_json(text.as_str().as_bytes(), gen) {
            Some(document) => {
                proof {
                    let ids = document.elements@.map_values(
                        |e: crate::element::Element| e.id,
                    );
                    assert(forall|i: int| 0 <= i < ids.len() ==> (#[trigger] ids[i])
                        == document.elements@[i].id);
                    crate::id::lemma_indexed_ids_generated(ids, pre_gen.next as int, *gen);
                }
                Outcome::UpdateDocument(document)
            },
            None => Outcome::Noop,
        }
    }
}

} // verus!
