use vstd::prelude::*;

use crate::camera::{clamp_i32, Camera};
use crate::canvas::Canvas;
use crate::document::Document;
use crate::drag::DragHandler;
use crate::element::{topmost_hit, Element};
use crate::event::{Event, KeyboardEvent, MouseEvent, SocketMessage, WsEvent};
use crate::hover::HoverHandler;
use crate::id::{ids_generated, lemma_fresh_id_unique, lemma_ids_generated_mono, Id, IdGenerator};
use crate::keypress::KeypressHandler;
use crate::outcome::{CursorStyle, Outcome};
use crate::prompt::{Prompt, PromptResponse};
use crate::websocket::WebsocketHandler;
use crate::wire::{dec_digits, lit, parse_document, ser_document, ser_i32};

verus! {

use vstd::string::is_ascii_spec_bytes;
use vstd::utf8::{encode_utf8, is_leading_byte_width_1, pop_first_scalar, valid_first_scalar, valid_utf8};

/// The outside work one event asks the host to perform: everything
/// the verified core cannot do itself.
#[derive(Debug, Clone, PartialEq)]
pub struct Effects {
    /// Open (or reopen) the WebSocket, then report back through
    /// `set_connected`.
    pub connect: bool,
    /// Resize the canvas backing store, then redraw.
    pub resize: bool,
    /// Redraw the frame.
    pub redraw: bool,
    /// Send this text frame to the relay.
    pub sync_payload: Option<Vec<u8>>,
    /// Switch the pointer shape.
    pub cursor: Option<CursorStyle>,
    /// Close the prompt dialog.
    pub close_dialog: bool,
    /// Open a prompt dialog for this element.
    pub open_prompt: Option<(Id, Prompt)>,
    /// A document-changing outcome was applied this event.
    pub document_mutated: bool,
    /// The document was replaced by an authoritative one this event.
    pub document_replaced: bool,
}

impl Effects {
    fn none() -> (fx: Effects)
        ensures
            fx == Effects::none_spec(),
    {
        Effects {
            connect: false,
            resize: false,
            redraw: false,
            sync_payload: None,
            cursor: None,
            close_dialog: false,
            open_prompt: None,
            document_mutated: false,
            document_replaced: false,
        }
    }

    pub open spec fn none_spec() -> Effects {
        Effects {
            connect: false,
            resize: false,
            redraw: false,
            sync_payload: None,
            cursor: None,
            close_dialog: false,
            open_prompt: None,
            document_mutated: false,
            document_replaced: false,
        }
    }
}

/// The rendering of the camera offset shown in the info overlay.
pub open spec fn camera_text(camera: Camera) -> Seq<u8> {
    ser_i32(camera.x) + lit("x ") + ser_i32(camera.y) + lit("y")
}

/// The whole client: the document, the camera, the four handlers and
/// the identifier well. One instance exists per tab; the host feeds it
/// every event and performs the returned effects.
pub struct State<C: Canvas> {
    pub document: Document,
    pub ws_connected: bool,
    pub canvas: C,
    pub camera: Camera,
    pub drag_handler: DragHandler,
    pub websocket_handler: WebsocketHandler,
    pub keypress_handler: KeypressHandler,
    pub hover_handler: HoverHandler,
    pub ids: IdGenerator,
}

impl<C: Canvas> State<C> {
    /// Every live element carries an identifier the well issued, no
    /// two elements share one, an element is hovered only while the
    /// hover handler points at it, and the key set holds no
    /// duplicates.
    pub open spec fn wf(self) -> bool {
        &&& ids_generated(self.document.elements@.map_values(|e: Element| e.id), self.ids)
        &&& self.keypress_handler.wf()
        &&& hover_full(self.document.elements@, self.hover_handler.id)
        &&& (match self.hover_handler.id {
            Some(h) => h.0 < self.ids.next,
            None => true,
        })
    }

    pub fn new(canvas: C) -> (s: Self)
        ensures
            s.wf(),
            s.document.elements@.len() == 0,
            s.document.synchronized == true,
            s.ws_connected == false,
            s.camera == (Camera { x: 0, y: 0 }),
    {
        Self {
            document: Document::default(),
            ws_connected: false,
            canvas,
            camera: Camera::default(),
            drag_handler: DragHandler::default(),
            websocket_handler: WebsocketHandler::default(),
            keypress_handler: KeypressHandler::default(),
            hover_handler: HoverHandler::default(),
            ids: IdGenerator::new(),
        }
    }

    /// The host reports whether the WebSocket is open.
    pub fn set_connected(&mut self, connected: bool)
        requires
            old(self).wf(),
        ensures
            final(self).wf(),
            *final(self) == (State { ws_connected: connected, ..*old(self) }),
    {
        self.ws_connected = connected;
    }

    /// Serialises the document and, while connected, hands it out for
    /// sending and marks the document synchronised; without a
    /// connection nothing is sent and nothing changes.
    pub fn sync_document(&mut self) -> (r: Option<Vec<u8>>)
        ensures
            old(self).ws_connected ==> (r matches Some(p) && p@ == ser_document(
                final(self).document.wire(),
            ) && final(self).document.synchronized == true),
            !old(self).ws_connected ==> r is None && *final(self) == *old(self),
            final(self).document.elements@ == old(self).document.elements@,
            final(self).document.color == old(self).document.color,
            final(self).document.local == old(self).document.local,
            final(self).camera == old(self).camera,
            final(self).ws_connected == old(self).ws_connected,
            final(self).ids == old(self).ids,
            final(self).hover_handler == old(self).hover_handler,
            final(self).keypress_handler == old(self).keypress_handler,
            final(self).drag_handler == old(self).drag_handler,
    {
        if !self.ws_connected {
            return None;
        }
        let payload = self.document.to_json();
        self.document.synchronized = true;
        Some(payload)
    }

    /// Rebuilds the info overlay text from the camera offset and sets
    /// its visibility when asked to.
    pub fn update_info_element(&mut self, visible: Option<bool>)
        requires
            old(self).wf(),
        ensures
            final(self).wf(),
            final(self).document.elements@ == old(self).document.elements@,
            final(self).document.color == old(self).document.color,
            final(self).document.synchronized == old(self).document.synchronized,
            final(self).document.local.show_info == (match visible {
                Some(v) => v,
                None => old(self).document.local.show_info,
            }),
            vstd::utf8::encode_utf8(final(self).document.local.info_element.text@) == camera_text(
                old(self).camera,
            ),
            final(self).camera == old(self).camera,
            final(self).ws_connected == old(self).ws_connected,
            final(self).ids == old(self).ids,
            final(self).hover_handler == old(self).hover_handler,
            final(self).keypress_handler == old(self).keypress_handler,
            final(self).drag_handler == old(self).drag_handler,
    {
        self.update_info_element_raw(visible);
    }
}

/// The decimal digits of a non-negative number are ASCII.
pub(crate) proof fn lemma_dec_digits_ascii(n: int)
    requires
        n >= 0,
    ensures
        forall|i: int| 0 <= i < dec_digits(n).len() ==> (#[trigger] dec_digits(n)[i]) < 0x80,
    decreases n,
{
    if n >= 10 {
        lemma_dec_digits_ascii(n / 10);
        assert(dec_digits(n) =~= dec_digits(n / 10) + seq![(48 + n % 10) as u8]);
        assert forall|i: int| 0 <= i < dec_digits(n).len() implies (#[trigger] dec_digits(n)[i])
            < 0x80 by {
            if i < dec_digits(n / 10).len() {
                assert(dec_digits(n)[i] == dec_digits(n / 10)[i]);
            }
        }
    }
}

/// The camera offset rendering consists of ASCII bytes only.
proof fn lemma_camera_text_ascii(camera: Camera)
    ensures
        forall|i: int| 0 <= i < camera_text(camera).len() ==> (#[trigger] camera_text(camera)[i])
            < 0x80,
{
    broadcast use is_ascii_spec_bytes;

    reveal_strlit("x ");
    reveal_strlit("y");
    assert(vstd::string::is_ascii("x "));
    assert(vstd::string::is_ascii("y"));
    if camera.x < 0 {
        lemma_dec_digits_ascii(-(camera.x as int));
    } else {
        lemma_dec_digits_ascii(camera.x as int);
    }
    if camera.y < 0 {
        lemma_dec_digits_ascii(-(camera.y as int));
    } else {
        lemma_dec_digits_ascii(camera.y as int);
    }
}

/// A sequence of ASCII bytes is valid UTF-8: each byte is its own
/// one-byte scalar.
pub(crate) proof fn lemma_ascii_valid_utf8(b: Seq<u8>)
    requires
        forall|i: int| 0 <= i < b.len() ==> (#[trigger] b[i]) < 0x80,
    ensures
        valid_utf8(b),
    decreases b.len(),
{
    if b.len() != 0 {
        let b0 = b[0];
        assert(b0 < 0x80 ==> b0 & 0x80 == 0) by (bit_vector);
        assert(is_leading_byte_width_1(b0));
        assert((b0 & 0x7F) as u32 <= 0x7F) by (bit_vector);
        assert(valid_first_scalar(b));
        assert(pop_first_scalar(b) =~= b.drop_first());
        lemma_ascii_valid_utf8(b.drop_first());
    }
}


/// The hover flags agree with the hover handler: an element is
/// flagged exactly while the handler points at its identifier.
pub open spec fn hover_full(elements: Seq<Element>, hid: Option<Id>) -> bool {
    forall|i: int|
        0 <= i < elements.len() ==> ((#[trigger] elements[i]).hovered() <==> hid == Some(
            elements[i].id,
        ))
}

impl<C: Canvas> State<C> {
    /// Applies one outcome that neither adds nor replaces elements.
    fn apply_simple(&mut self, o: Outcome, fx: &mut Effects)
        requires
            !(o matches Outcome::AddElement(_)),
            !(o matches Outcome::UpdateDocument(_)),
        ensures
            final(self).document.elements@.len() == old(self).document.elements@.len(),
            forall|i: int|
                0 <= i < old(self).document.elements@.len() ==> (#[trigger] final(self).document.elements@[i]).id == old(self).document.elements@[i].id,
            final(self).document.color == old(self).document.color,
            final(self).ws_connected == old(self).ws_connected,
            final(self).ids == old(self).ids,
            final(self).hover_handler == old(self).hover_handler,
            final(self).drag_handler == old(self).drag_handler,
            final(self).keypress_handler == old(self).keypress_handler,
            final(self).canvas == old(self).canvas,
            final(fx).connect == old(fx).connect,
            final(fx).resize == old(fx).resize,
            final(fx).redraw == old(fx).redraw,
            final(fx).sync_payload == old(fx).sync_payload,
            final(fx).close_dialog == old(fx).close_dialog,
            final(fx).document_replaced == old(fx).document_replaced,
            (o matches Outcome::Noop ==> *final(self) == *old(self) && *final(fx) == *old(fx)),
            (match o {
                Outcome::MoveElement { .. } => final(fx).document_mutated
                    && !final(self).document.synchronized,
                _ => final(fx).document_mutated == old(fx).document_mutated && final(self).document.synchronized == old(self).document.synchronized,
            }),
            (match o {
                Outcome::MoveElement { id, x, y } => (forall|i: int|
                    0 <= i < old(self).document.elements@.len() && old(self).document.elements@[i].id != id ==> (#[trigger] final(self).document.elements@[i]) == old(self).document.elements@[i]) && (forall|i: int|
                    0 <= i < old(self).document.elements@.len() && (#[trigger] old(self).document.elements@[i]).id == id && (forall|j: int|
                        0 <= j < i ==> old(self).document.elements@[j].id != id)
                        ==> crate::element::element_moved(
                        old(self).document.elements@[i],
                        final(self).document.elements@[i],
                        x,
                        y,
                    )),
                Outcome::HoverElement { .. } => true,
                _ => final(self).document.elements@ == old(self).document.elements@,
            }),
            forall|i: int|
                0 <= i < old(self).document.elements@.len() ==> crate::element::shape_unchanged(
                    old(self).document.elements@[i],
                    (#[trigger] final(self).document.elements@[i]),
                ) || (o matches Outcome::MoveElement { .. }),
            (match o {
                Outcome::HoverElement { id, hovered } => forall|i: int|
                    0 <= i < old(self).document.elements@.len() ==> (#[trigger] final(self).document.elements@[i]).hovered() == (if old(self).document.elements@[i].id == id {
                        hovered
                    } else {
                        old(self).document.elements@[i].hovered()
                    }),
                _ => forall|i: int|
                    0 <= i < old(self).document.elements@.len() ==> (#[trigger] final(self).document.elements@[i]).hovered() == old(self).document.elements@[i].hovered(),
            }),
            (match o {
                Outcome::Translate { x, y } => final(self).camera == (Camera {
                    x: clamp_i32(old(self).camera.x + x),
                    y: clamp_i32(old(self).camera.y + y),
                }),
                _ => final(self).camera == old(self).camera,
            }),
            (match o {
                Outcome::CursorStyle(c) => final(fx).cursor == Some(c),
                _ => final(fx).cursor == old(fx).cursor,
            }),
            (match o {
                Outcome::ClickElement { .. } => true,
                _ => final(fx).open_prompt == old(fx).open_prompt,
            }),
    {
        match o {
            Outcome::Noop => {
            },
            Outcome::Translate { x, y } => {
                self.camera.translate(x, y);
            },
            Outcome::MoveElement { id, x, y } => {
                match index_of(&self.document.elements, id) {
                    Some(k) => {
                        let ghost pre = self.document.elements@;
                        let mut el = self.document.elements.remove(k);
                        el.adjust_position(x, y);
                        self.document.elements.insert(k, el);
                        proof {
                            assert(self.document.elements@ =~= pre.update(
                                k as int,
                                self.document.elements@[k as int],
                            ));
                        }
                    },
                    None => {
                    },
                }
                self.document.synchronized = false;
                fx.document_mutated = true;
            },
            Outcome::ClickElement { id, x, y } => {
                match index_of(&self.document.elements, id) {
                    Some(k) => {
                        let ghost pre = self.document.elements@;
                        let mut el = self.document.elements.remove(k);
                        let ex = el.x();
                        let ey = el.y();
                        let p = el.click(sub_clamped_local(x, ex), sub_clamped_local(y, ey));
                        self.document.elements.insert(k, el);
                        proof {
                            assert(self.document.elements@ =~= pre);
                        }
                        if let Some(prompt) = p {
                            fx.open_prompt = Some((id, prompt));
                        }
                    },
                    None => {
                    },
                }
            },
            Outcome::HoverElement { id, hovered } => {
                let mut i: usize = 0;
                let n = self.document.elements.len();
                while i < n
                    invariant
                        i <= n,
                        n == self.document.elements@.len(),
                        self.document.elements@.len() == old(self).document.elements@.len(),
                        forall|j: int|
                            0 <= j < self.document.elements@.len() ==> (#[trigger] self.document.elements@[j]).id == old(self).document.elements@[j].id,
                        forall|j: int|
                            0 <= j < i ==> (#[trigger] self.document.elements@[j]).hovered() == (
                            if old(self).document.elements@[j].id == id {
                                hovered
                            } else {
                                old(self).document.elements@[j].hovered()
                            }),
                        forall|j: int|
                            0 <= j < self.document.elements@.len()
                                ==> crate::element::shape_unchanged(
                                old(self).document.elements@[j],
                                (#[trigger] self.document.elements@[j]),
                            ),
                        forall|j: int|
                            i <= j < self.document.elements@.len() ==> (
                            #[trigger] self.document.elements@[j]) == old(self).document.elements@[j],
                        self.document.color == old(self).document.color,
                        self.document.local == old(self).document.local,
                        self.document.synchronized == old(self).document.synchronized,
                        self.camera == old(self).camera,
                        self.ws_connected == old(self).ws_connected,
                        self.ids == old(self).ids,
                        self.hover_handler == old(self).hover_handler,
                        self.drag_handler == old(self).drag_handler,
                        self.keypress_handler == old(self).keypress_handler,
                        self.canvas == old(self).canvas,
                        *fx == *old(fx),
                    decreases n - i,
                {
                    if self.document.elements[i].id.0 == id.0 {
                        let ghost pre = self.document.elements@;
                        let mut el = self.document.elements.remove(i);
                        el.set_hover(hovered);
                        self.document.elements.insert(i, el);
                        proof {
                            assert(self.document.elements@ =~= pre.update(
                                i as int,
                                self.document.elements@[i as int],
                            ));
                        }
                    }
                    i = i + 1;
                }
            },
            Outcome::CursorStyle(style) => {
                fx.cursor = Some(style);
            },
            Outcome::UpdateInfo { visible } => {
                self.update_info_element_raw(Some(visible));
            },
            Outcome::UpdateDocument(_) => {
            },
            Outcome::AddElement(_) => {
            },
        }
    }

    /// `update_info_element` without the well-formedness bookkeeping,
    /// for use mid-application.
    fn update_info_element_raw(&mut self, visible: Option<bool>)
        ensures
            final(self).document.elements@ == old(self).document.elements@,
            final(self).document.color == old(self).document.color,
            final(self).document.synchronized == old(self).document.synchronized,
            final(self).document.local.show_info == (match visible {
                Some(v) => v,
                None => old(self).document.local.show_info,
            }),
            vstd::utf8::encode_utf8(final(self).document.local.info_element.text@) == camera_text(
                old(self).camera,
            ),
            final(self).camera == old(self).camera,
            final(self).ws_connected == old(self).ws_connected,
            final(self).ids == old(self).ids,
            final(self).hover_handler == old(self).hover_handler,
            final(self).keypress_handler == old(self).keypress_handler,
            final(self).drag_handler == old(self).drag_handler,
            final(self).canvas == old(self).canvas,
    {
        let mut bytes: Vec<u8> = Vec::new();
        crate::ser::push_i32(&mut bytes, self.camera.x);
        crate::ser::push_lit(&mut bytes, "x ");
        crate::ser::push_i32(&mut bytes, self.camera.y);
        crate::ser::push_lit(&mut bytes, "y");
        proof {
            vstd::seq_lib::lemma_concat_associative(
                ser_i32(self.camera.x),
                lit("x "),
                ser_i32(self.camera.y),
            );
            vstd::seq_lib::lemma_concat_associative(
                ser_i32(self.camera.x),
                lit("x ") + ser_i32(self.camera.y),
                lit("y"),
            );
            vstd::seq_lib::lemma_concat_associative(
                ser_i32(self.camera.x) + lit("x "),
                ser_i32(self.camera.y),
                lit("y"),
            );
            assert(bytes@ == camera_text(self.camera));
            lemma_camera_text_ascii(self.camera);
            lemma_ascii_valid_utf8(bytes@);
        }
        let text = match crate::parse::bytes_to_string(bytes) {
            Some(t) => t,
            None => String::new(),
        };
        proof {
            broadcast use vstd::utf8::encode_utf8_decode_utf8;

        }
        self.document.update_info(visible, text);
    }
}

/// The first element with the given identifier, if any.
fn index_of(elements: &Vec<Element>, id: Id) -> (r: Option<usize>)
    ensures
        (match r {
            Some(k) => k < elements@.len() && elements@[k as int].id == id && (forall|j: int|
                0 <= j < k ==> (#[trigger] elements@[j]).id != id),
            None => forall|j: int| 0 <= j < elements@.len() ==> (#[trigger] elements@[j]).id != id,
        }),
{
    let mut i: usize = 0;
    let n = elements.len();
    while i < n
        invariant
            i <= n,
            n == elements@.len(),
            forall|j: int| 0 <= j < i ==> (#[trigger] elements@[j]).id != id,
        decreases n - i,
    {
        if elements[i].id.0 == id.0 {
            return Some(i);
        }
        i = i + 1;
    }
    None
}

/// Clamped difference, for element-relative click coordinates.
fn sub_clamped_local(a: i32, b: i32) -> (r: i32)
    ensures
        r == clamp_i32(a - b),
{
    let wide: i64 = a as i64 - b as i64;
    if wide > i32::MAX as i64 {
        i32::MAX
    } else if wide < i32::MIN as i64 {
        i32::MIN
    } else {
        wide as i32
    }
}


/// The hover flag of element `id` after a list of outcomes has been
/// applied on top of `orig`.
pub open spec fn hover_flag_after(orig: bool, outs: Seq<Outcome>, id: Id) -> bool
    decreases outs.len(),
{
    if outs.len() == 0 {
        orig
    } else {
        hover_flag_after(
            (match outs[0] {
                Outcome::HoverElement { id: oid, hovered } => if oid == id {
                    hovered
                } else {
                    orig
                },
                _ => orig,
            }),
            outs.drop_first(),
            id,
        )
    }
}

/// Appending one outcome folds on the right.
proof fn lemma_hover_flag_snoc(orig: bool, outs: Seq<Outcome>, x: Outcome, id: Id)
    ensures
        hover_flag_after(orig, outs.push(x), id) == (match x {
            Outcome::HoverElement { id: oid, hovered } => if oid == id {
                hovered
            } else {
                hover_flag_after(orig, outs, id)
            },
            _ => hover_flag_after(orig, outs, id),
        }),
    decreases outs.len(),
{
    reveal_with_fuel(hover_flag_after, 3);
    assert(outs.push(x).len() == outs.len() + 1);
    if outs.len() == 0 {
        assert(outs.push(x) =~= seq![x]);
        assert(outs.push(x)[0] == x);
        assert(outs.push(x).drop_first() =~= Seq::<Outcome>::empty());
        assert(hover_flag_after(orig, Seq::<Outcome>::empty(), id) == orig);
    } else {
        assert(outs.push(x)[0] == outs[0]);
        assert(outs.push(x).drop_first() =~= outs.drop_first().push(x));
        let orig2 = (match outs[0] {
            Outcome::HoverElement { id: oid, hovered } => if oid == id {
                hovered
            } else {
                orig
            },
            _ => orig,
        });
        lemma_hover_flag_snoc(orig2, outs.drop_first(), x, id);
    }
}

impl<C: Canvas> State<C> {
    /// Applies a list of outcomes that neither add nor replace
    /// elements; used for the drag handler's and the hover handler's
    /// outcome lists.
    fn apply_simple_list(&mut self, outcomes: Vec<Outcome>, fx: &mut Effects)
        requires
            forall|j: int|
                0 <= j < outcomes@.len() ==> !((#[trigger] outcomes@[j]) matches
                    Outcome::AddElement(_)) && !(outcomes@[j] matches Outcome::UpdateDocument(_)),
            old(fx).document_mutated ==> !old(self).document.synchronized,
        ensures
            final(self).document.elements@.len() == old(self).document.elements@.len(),
            forall|i: int|
                0 <= i < old(self).document.elements@.len() ==> (#[trigger] final(self).document.elements@[i]).id == old(self).document.elements@[i].id,
            forall|i: int|
                0 <= i < old(self).document.elements@.len() ==> (#[trigger] final(self).document.elements@[i]).hovered() == hover_flag_after(
                    old(self).document.elements@[i].hovered(),
                    outcomes@,
                    old(self).document.elements@[i].id,
                ),
            final(self).document.color == old(self).document.color,
            final(self).ws_connected == old(self).ws_connected,
            final(self).ids == old(self).ids,
            final(self).hover_handler == old(self).hover_handler,
            final(self).drag_handler == old(self).drag_handler,
            final(self).keypress_handler == old(self).keypress_handler,
            final(self).canvas == old(self).canvas,
            final(fx).connect == old(fx).connect,
            final(fx).resize == old(fx).resize,
            final(fx).redraw == old(fx).redraw,
            final(fx).sync_payload == old(fx).sync_payload,
            final(fx).close_dialog == old(fx).close_dialog,
            final(fx).document_replaced == old(fx).document_replaced,
            final(fx).document_mutated == (old(fx).document_mutated || (exists|j: int|
                0 <= j < outcomes@.len() && (#[trigger] outcomes@[j]) matches
                    Outcome::MoveElement { .. })),
            (forall|j: int|
                0 <= j < outcomes@.len() ==> !((#[trigger] outcomes@[j]) matches
                    Outcome::MoveElement { .. }) && !(outcomes@[j] matches
                    Outcome::HoverElement { .. })) ==> final(self).document.elements@ == old(self).document.elements@,
            (forall|j: int|
                0 <= j < outcomes@.len() ==> (#[trigger] outcomes@[j]) matches Outcome::Noop)
                ==> *final(self) == *old(self) && *final(fx) == *old(fx),
            (forall|j: int|
                0 <= j < outcomes@.len() ==> !((#[trigger] outcomes@[j]) matches
                    Outcome::MoveElement { .. })) ==> forall|i: int|
                0 <= i < old(self).document.elements@.len()
                    ==> crate::element::shape_unchanged(
                    old(self).document.elements@[i],
                    (#[trigger] final(self).document.elements@[i]),
                ),
            ((outcomes@.len() >= 1 && (forall|j: int|
                1 <= j < outcomes@.len() ==> !((#[trigger] outcomes@[j]) matches
                    Outcome::MoveElement { .. }) && !(outcomes@[j] matches
                    Outcome::HoverElement { .. }))) ==> (match outcomes@[0] {
                Outcome::MoveElement { id, x, y } => {
                    &&& (forall|i: int|
                        0 <= i < old(self).document.elements@.len() && old(self).document.elements@[i].id != id ==> (#[trigger] final(self).document.elements@[i]) == old(self).document.elements@[i])
                    &&& (forall|i: int|
                        0 <= i < old(self).document.elements@.len() && (#[trigger] old(self).document.elements@[i]).id == id && (forall|j: int|
                            0 <= j < i ==> old(self).document.elements@[j].id != id)
                            ==> crate::element::element_moved(
                            old(self).document.elements@[i],
                            final(self).document.elements@[i],
                            x,
                            y,
                        ))
                },
                _ => true,
            })),
            !final(fx).document_mutated ==> final(self).document.synchronized == old(self).document.synchronized,
            final(fx).document_mutated ==> !final(self).document.synchronized,
    {
        let mut rest = outcomes;
        let ghost all = rest@;
        let ghost done: Seq<Outcome> = Seq::empty();
        while rest.len() > 0
            invariant
                all =~= done + rest@,
                forall|j: int|
                    0 <= j < rest@.len() ==> !((#[trigger] rest@[j]) matches
                        Outcome::AddElement(_)) && !(rest@[j] matches Outcome::UpdateDocument(_)),
                self.document.elements@.len() == old(self).document.elements@.len(),
                forall|i: int|
                    0 <= i < old(self).document.elements@.len() ==> (#[trigger] self.document.elements@[i]).id == old(self).document.elements@[i].id,
                forall|i: int|
                    0 <= i < old(self).document.elements@.len() ==> (#[trigger] self.document.elements@[i]).hovered() == hover_flag_after(
                        old(self).document.elements@[i].hovered(),
                        done,
                        old(self).document.elements@[i].id,
                    ),
                self.document.color == old(self).document.color,
                self.ws_connected == old(self).ws_connected,
                self.ids == old(self).ids,
                self.hover_handler == old(self).hover_handler,
                self.drag_handler == old(self).drag_handler,
                self.keypress_handler == old(self).keypress_handler,
                self.canvas == old(self).canvas,
                fx.connect == old(fx).connect,
                fx.resize == old(fx).resize,
                fx.redraw == old(fx).redraw,
                fx.sync_payload == old(fx).sync_payload,
                fx.close_dialog == old(fx).close_dialog,
                fx.document_replaced == old(fx).document_replaced,
                fx.document_mutated == (old(fx).document_mutated || (exists|j: int|
                    0 <= j < done.len() && (#[trigger] done[j]) matches
                        Outcome::MoveElement { .. })),
                (forall|j: int|
                    0 <= j < all.len() ==> !((#[trigger] all[j]) matches
                        Outcome::MoveElement { .. }) && !(all[j] matches
                        Outcome::HoverElement { .. })) ==> self.document.elements@ == old(self).document.elements@,
                (forall|j: int| 0 <= j < all.len() ==> (#[trigger] all[j]) matches Outcome::Noop)
                    ==> *self == *old(self) && *fx == *old(fx),
                (forall|j: int|
                    0 <= j < all.len() ==> !((#[trigger] all[j]) matches
                        Outcome::MoveElement { .. })) ==> forall|i: int|
                    0 <= i < old(self).document.elements@.len()
                        ==> crate::element::shape_unchanged(
                        old(self).document.elements@[i],
                        (#[trigger] self.document.elements@[i]),
                    ),
                ((all.len() >= 1 && (forall|j: int|
                    1 <= j < all.len() ==> !((#[trigger] all[j]) matches
                        Outcome::MoveElement { .. }) && !(all[j] matches
                        Outcome::HoverElement { .. }))) ==> ((done.len() == 0
                    ==> self.document.elements@ == old(self).document.elements@) && (done.len()
                    >= 1 ==> (match all[0] {
                    Outcome::MoveElement { id, x, y } => {
                        &&& (forall|i: int|
                            0 <= i < old(self).document.elements@.len() && old(self).document.elements@[i].id != id ==> (#[trigger] self.document.elements@[i]) == old(self).document.elements@[i])
                        &&& (forall|i: int|
                            0 <= i < old(self).document.elements@.len() && (#[trigger] old(self).document.elements@[i]).id == id && (forall|j: int|
                                0 <= j < i ==> old(self).document.elements@[j].id != id)
                                ==> crate::element::element_moved(
                                old(self).document.elements@[i],
                                self.document.elements@[i],
                                x,
                                y,
                            ))
                    },
                    _ => true,
                })))),
                !fx.document_mutated ==> self.document.synchronized == old(self).document.synchronized,
                fx.document_mutated ==> !self.document.synchronized,
            decreases rest@.len(),
        {
            let ghost pre_flags = self.document.elements@;
            let o = rest.remove(0);
            let ghost o_spec = o;
            proof {
                assert(o_spec == all[done.len() as int]);
            }
            let ghost pre_elems = self.document.elements@;
            self.apply_simple(o, fx);
            proof {
                if forall|j: int|
                    0 <= j < all.len() ==> !((#[trigger] all[j]) matches
                        Outcome::MoveElement { .. }) {
                    assert forall|i: int|
                        0 <= i < old(self).document.elements@.len()
                            implies crate::element::shape_unchanged(
                        old(self).document.elements@[i],
                        (#[trigger] self.document.elements@[i]),
                    ) by {
                        crate::element::lemma_shape_unchanged_trans(
                            old(self).document.elements@[i],
                            pre_elems[i],
                            self.document.elements@[i],
                        );
                    }
                }
            }
            proof {
                let done2 = done.push(o_spec);
                assert(forall|j: int| 0 <= j < done.len() ==> done2[j] == #[trigger] done[j]);
                assert(done2.last() == o_spec);
                assert forall|i: int|
                    0 <= i < old(self).document.elements@.len() implies (
                #[trigger] self.document.elements@[i]).hovered() == hover_flag_after(
                    old(self).document.elements@[i].hovered(),
                    done2,
                    old(self).document.elements@[i].id,
                ) by {
                    lemma_hover_flag_snoc(
                        old(self).document.elements@[i].hovered(),
                        done,
                        o_spec,
                        old(self).document.elements@[i].id,
                    );
                }
                done = done2;
            }
        }
        proof {
            assert(done =~= all);
        }
    }
}


/// `e` is the parse of the wire element `we`, then measured and laid
/// out against the canvas.
pub open spec fn wire_element_settled(we: crate::wire::WireElement, e: Element) -> bool {
    exists|mid: Element|
        #[trigger] crate::parse::element_from_wire(mid, we)
            && crate::element::element_initialized(mid, e)
}

/// Each element is a parse of the matching wire element, measured and
/// laid out against the canvas.
pub open spec fn ws_replaced_ok(
    w_elements: Seq<crate::wire::WireElement>,
    elements: Seq<Element>,
) -> bool {
    &&& elements.len() == w_elements.len()
    &&& forall|i: int|
        0 <= i < w_elements.len() ==> #[trigger] wire_element_settled(w_elements[i], elements[i])
}

/// The hover handler only ever emits hover outcomes.
proof fn lemma_hover_outcomes_kinds(prev: Option<Id>, next: Option<Id>)
    ensures
        forall|j: int|
            0 <= j < crate::hover::hover_outcomes(prev, next).len() ==> (
            #[trigger] crate::hover::hover_outcomes(prev, next)[j]) matches
                Outcome::HoverElement { .. },
{
    let outs = crate::hover::hover_outcomes(prev, next);
    assert forall|j: int| 0 <= j < outs.len() implies (#[trigger] outs[j]) matches
        Outcome::HoverElement { .. } by {
        match (prev, next) {
            (Option::Some(p), Option::Some(h)) => {
                assert(outs =~= seq![
                    Outcome::HoverElement { id: p, hovered: false },
                    Outcome::HoverElement { id: h, hovered: true },
                ]);
            },
            (Option::Some(p), Option::None) => {
                assert(outs =~= seq![Outcome::HoverElement { id: p, hovered: false }]);
            },
            (Option::None, Option::Some(h)) => {
                assert(outs =~= seq![Outcome::HoverElement { id: h, hovered: true }]);
            },
            (Option::None, Option::None) => {
                assert(outs =~= Seq::<Outcome>::empty());
            },
        }
    }
}

/// Outcomes that carry no hover change leave every flag alone.
proof fn lemma_hover_flag_no_hover(orig: bool, outs: Seq<Outcome>, id: Id)
    requires
        forall|j: int|
            0 <= j < outs.len() ==> !((#[trigger] outs[j]) matches Outcome::HoverElement { .. }),
    ensures
        hover_flag_after(orig, outs, id) == orig,
    decreases outs.len(),
{
    if outs.len() > 0 {
        lemma_hover_flag_no_hover(orig, outs.drop_first(), id);
    }
}



/// Replacing the document leaves it with fresh identifiers, no hover,
/// and the synchronised flag of an authoritative copy.
impl<C: Canvas> State<C> {
    /// Applies the websocket handler's outcome: an authoritative
    /// document replaces the local one wholesale (after measuring its
    /// elements against the canvas), and the hover handler forgets
    /// its element, which no longer exists.
    fn apply_ws_outcome(&mut self, o: Outcome, fx: &mut Effects)
        requires
            (match o {
                Outcome::UpdateDocument(d) => {
                    &&& ids_generated(
                        d.elements@.map_values(|e: Element| e.id),
                        old(self).ids,
                    )
                    &&& forall|i: int|
                        0 <= i < d.elements@.len() ==> (#[trigger] d.elements@[i]).hovered()
                            == false
                    &&& d.synchronized == true
                },
                _ => o matches Outcome::Noop,
            }),
        ensures
            final(self).ws_connected == old(self).ws_connected,
            final(self).camera == old(self).camera,
            final(self).ids == old(self).ids,
            final(self).drag_handler == old(self).drag_handler,
            final(self).keypress_handler == old(self).keypress_handler,
            final(self).canvas == old(self).canvas,
            final(fx).connect == old(fx).connect,
            final(fx).resize == old(fx).resize,
            final(fx).redraw == old(fx).redraw,
            final(fx).sync_payload == old(fx).sync_payload,
            final(fx).close_dialog == old(fx).close_dialog,
            final(fx).cursor == old(fx).cursor,
            final(fx).open_prompt == old(fx).open_prompt,
            final(fx).document_mutated == old(fx).document_mutated,
            (match o {
                Outcome::UpdateDocument(d) => {
                    &&& final(fx).document_replaced == true
                    &&& final(self).document.synchronized == true
                    &&& final(self).hover_handler.id is None
                    &&& ids_generated(
                        final(self).document.elements@.map_values(|e: Element| e.id),
                        final(self).ids,
                    )
                    &&& forall|i: int|
                        0 <= i < final(self).document.elements@.len() ==> (#[trigger] final(self).document.elements@[i]).hovered() == false
                    &&& final(self).document.color == d.color
                    &&& final(self).document.elements@.len() == d.elements@.len()
                    &&& forall|i: int|
                        0 <= i < d.elements@.len() ==> crate::element::element_initialized(
                            d.elements@[i],
                            #[trigger] final(self).document.elements@[i],
                        )
                },
                _ => *final(self) == *old(self) && final(fx).document_replaced == old(fx).document_replaced,
            }),
    {
        match o {
            Outcome::UpdateDocument(document) => {
                let mut document = document;
                let ghost arrived = document;
                let mut i: usize = 0;
                let n = document.elements.len();
                while i < n
                    invariant
                        i <= n,
                        n == document.elements@.len(),
                        document.elements@.len() == arrived.elements@.len(),
                        ids_generated(
                            document.elements@.map_values(|e: Element| e.id),
                            self.ids,
                        ),
                        forall|j: int|
                            0 <= j < document.elements@.len() ==> (#[trigger] document.elements@[j]).hovered()
                                == false,
                        forall|j: int|
                            0 <= j < i ==> crate::element::element_initialized(
                                arrived.elements@[j],
                                #[trigger] document.elements@[j],
                            ),
                        forall|j: int|
                            i <= j < document.elements@.len() ==> (
                            #[trigger] document.elements@[j]) == arrived.elements@[j],
                        document.color == arrived.color,
                        document.synchronized == true,
                        *self == *old(self),
                        *fx == *old(fx),
                    decreases n - i,
                {
                    let ghost pre = document.elements@;
                    let mut el = document.elements.remove(i);
                    el.initalize(&self.canvas);
                    document.elements.insert(i, el);
                    proof {
                        assert(document.elements@ =~= pre.update(
                            i as int,
                            document.elements@[i as int],
                        ));
                        assert(document.elements@.map_values(|e: Element| e.id) =~= pre.map_values(
                            |e: Element| e.id,
                        ));
                    }
                    i = i + 1;
                }
                self.document = document;
                self.hover_handler.id = None;
                fx.document_replaced = true;
            },
            _ => {
            },
        }
    }

    /// Applies the keypress handler's outcome: a freshly numbered
    /// element is measured, appended, and the document counts as
    /// unsynchronised until sent.
    fn apply_kp_outcome(&mut self, o: Outcome, fx: &mut Effects)
        requires
            (match o {
                Outcome::AddElement(el) => {
                    &&& el.id.0 < old(self).ids.next
                    &&& forall|i: int|
                        0 <= i < old(self).document.elements@.len() ==> (#[trigger] old(self).document.elements@[i]).id != el.id
                    &&& el.hovered() == false
                },
                _ => o matches Outcome::Noop,
            }),
            ids_generated(
                old(self).document.elements@.map_values(|e: Element| e.id),
                old(self).ids,
            ),
        ensures
            final(self).ws_connected == old(self).ws_connected,
            final(self).camera == old(self).camera,
            final(self).ids == old(self).ids,
            final(self).drag_handler == old(self).drag_handler,
            final(self).keypress_handler == old(self).keypress_handler,
            final(self).hover_handler == old(self).hover_handler,
            final(self).canvas == old(self).canvas,
            final(self).document.local == old(self).document.local,
            final(self).document.color == old(self).document.color,
            final(fx).connect == old(fx).connect,
            final(fx).resize == old(fx).resize,
            final(fx).redraw == old(fx).redraw,
            final(fx).sync_payload == old(fx).sync_payload,
            final(fx).close_dialog == old(fx).close_dialog,
            final(fx).cursor == old(fx).cursor,
            final(fx).document_replaced == old(fx).document_replaced,
            ids_generated(
                final(self).document.elements@.map_values(|e: Element| e.id),
                final(self).ids,
            ),
            (match o {
                Outcome::AddElement(el) => {
                    &&& final(fx).document_mutated == true
                    &&& !final(self).document.synchronized
                    &&& final(self).document.elements@.len() == old(self).document.elements@.len()
                        + 1
                    &&& forall|i: int|
                        0 <= i < old(self).document.elements@.len() ==> final(self).document.elements@[i] == old(self).document.elements@[i]
                    &&& crate::element::element_initialized(
                        el,
                        final(self).document.elements@.last(),
                    )
                    &&& (el.inner matches crate::element::ElementType::Class(c) ==> (final(fx).open_prompt matches Some((pid, pr)) && pid == el.id && (pr matches
                        Prompt::Text { explanation, placeholder, value, .. } && value@
                        == c.title.text@ && explanation@ == "Provide this class with a new name"@
                        && placeholder@ == "Class name"@)))
                    &&& (!(el.inner matches crate::element::ElementType::Class(_)) ==> final(fx).open_prompt == old(fx).open_prompt)
                },
                _ => {
                    &&& *final(self) == *old(self)
                    &&& final(fx).document_mutated == old(fx).document_mutated
                    &&& final(fx).open_prompt == old(fx).open_prompt
                },
            }),
    {
        match o {
            Outcome::AddElement(element) => {
                let mut element = element;
                let el_id = element.id;
                let title_value = match &element.inner {
                    crate::element::ElementType::Class(c) => Some(c.title.text.clone()),
                    _ => None,
                };
                element.initalize(&self.canvas);
                let ghost pre_ids = self.document.elements@.map_values(|e: Element| e.id);
                self.document.add_element(element);
                proof {
                    assert(self.document.elements@.map_values(|e: Element| e.id) =~= pre_ids.push(
                        self.document.elements@.last().id,
                    ));
                }
                self.document.synchronized = false;
                fx.document_mutated = true;
                if let Some(value) = title_value {
                    fx.open_prompt = Some(
                        (
                            el_id,
                            Prompt::Text {
                                explanation: "Provide this class with a new name".to_owned(),
                                placeholder: "Class name".to_owned(),
                                value,
                                metadata: String::new(),
                            },
                        ),
                    );
                }
            },
            _ => {
            },
        }
    }

    /// Delivers a prompt answer to the element that raised it; a
    /// non-empty answer to a class edits its title, which makes the
    /// document unsynchronised.
    fn deliver_prompt(&mut self, element_id: Id, response: PromptResponse)
        ensures
            final(self).ws_connected == old(self).ws_connected,
            final(self).camera == old(self).camera,
            final(self).ids == old(self).ids,
            final(self).drag_handler == old(self).drag_handler,
            final(self).keypress_handler == old(self).keypress_handler,
            final(self).hover_handler == old(self).hover_handler,
            final(self).canvas == old(self).canvas,
            final(self).document.local == old(self).document.local,
            final(self).document.color == old(self).document.color,
            final(self).document.elements@.len() == old(self).document.elements@.len(),
            forall|i: int|
                0 <= i < old(self).document.elements@.len() ==> (#[trigger] final(self).document.elements@[i]).id == old(self).document.elements@[i].id,
            forall|i: int|
                0 <= i < old(self).document.elements@.len() ==> (#[trigger] final(self).document.elements@[i]).hovered() == old(self).document.elements@[i].hovered(),
            forall|i: int|
                0 <= i < old(self).document.elements@.len() && old(self).document.elements@[i].id
                    != element_id ==> (#[trigger] final(self).document.elements@[i]) == old(self).document.elements@[i],
            forall|i: int|
                0 <= i < old(self).document.elements@.len() && (#[trigger] old(self).document.elements@[i]).id == element_id && (forall|j: int|
                    0 <= j < i ==> old(self).document.elements@[j].id != element_id)
                    ==> crate::element::element_prompted(
                    old(self).document.elements@[i],
                    final(self).document.elements@[i],
                    response,
                ),
            final(self).document.synchronized ==> old(self).document.synchronized,
    {
        match index_of(&self.document.elements, element_id) {
            Some(k) => {
                let ghost pre = self.document.elements@;
                let mut el = self.document.elements.remove(k);
                let is_class = match &el.inner {
                    crate::element::ElementType::Class(_) => true,
                    _ => false,
                };
                let nonempty = match &response {
                    PromptResponse::Text { response: r, .. } => !r.as_str().is_empty(),
                };
                el.prompt(response);
                self.document.elements.insert(k, el);
                proof {
                    assert(self.document.elements@ =~= pre.update(
                        k as int,
                        self.document.elements@[k as int],
                    ));
                }
                if is_class && nonempty {
                    self.document.synchronized = false;
                }
            },
            None => {
            },
        }
    }
}

/// Applying the hover handler's leave/enter pair reconciles the flags
/// with the new hit.
proof fn lemma_hover_full_after(
    e_pre: Seq<Element>,
    e_post: Seq<Element>,
    prev: Option<Id>,
    hit: Option<Id>,
)
    requires
        e_post.len() == e_pre.len(),
        forall|i: int| 0 <= i < e_pre.len() ==> (#[trigger] e_post[i]).id == e_pre[i].id,
        hover_full(e_pre, prev),
        forall|i: int|
            0 <= i < e_pre.len() ==> (#[trigger] e_post[i]).hovered() == hover_flag_after(
                e_pre[i].hovered(),
                crate::hover::hover_outcomes(prev, hit),
                e_pre[i].id,
            ),
    ensures
        hover_full(e_post, hit),
{
    reveal_with_fuel(hover_flag_after, 4);
    assert forall|i: int| 0 <= i < e_post.len() implies ((#[trigger] e_post[i]).hovered() <==> hit
        == Some(e_post[i].id)) by {
        let outs = crate::hover::hover_outcomes(prev, hit);
        assert(e_pre[i].hovered() <==> prev == Some(e_pre[i].id));
        match (prev, hit) {
            (Option::None, Option::None) => {
                assert(outs =~= Seq::<Outcome>::empty());
            },
            (Option::Some(p), Option::None) => {
                assert(outs =~= seq![Outcome::HoverElement { id: p, hovered: false }]);
            },
            (Option::None, Option::Some(h)) => {
                assert(outs =~= seq![Outcome::HoverElement { id: h, hovered: true }]);
            },
            (Option::Some(p), Option::Some(h)) => {
                assert(outs =~= seq![
                    Outcome::HoverElement { id: p, hovered: false },
                    Outcome::HoverElement { id: h, hovered: true },
                ]);
                assert(outs.drop_first() =~= seq![
                    Outcome::HoverElement { id: h, hovered: true },
                ]);
            },
        }
    }
}



impl<C: Canvas> State<C> {
    /// Runs the drag handler; its outcomes never touch the document's
    /// element set or hover flags.
    #[verifier::rlimit(60)]
    #[verifier::spinoff_prover]
    fn run_drag_handler(&mut self, event: &Event) -> (r: Vec<Outcome>)
        ensures
            final(self).document == old(self).document,
            final(self).camera == old(self).camera,
            final(self).ws_connected == old(self).ws_connected,
            final(self).canvas == old(self).canvas,
            final(self).ids == old(self).ids,
            final(self).websocket_handler == old(self).websocket_handler,
            final(self).keypress_handler == old(self).keypress_handler,
            final(self).hover_handler == old(self).hover_handler,
            forall|j: int|
                0 <= j < r@.len() ==> !((#[trigger] r@[j]) matches Outcome::AddElement(_)) && !(
                r@[j] matches Outcome::UpdateDocument(_)) && !(r@[j] matches
                Outcome::HoverElement { .. }),
            (!(event matches Event::Mouse(_)) && !(event matches Event::Keyboard(_)) ==> forall|
                j: int,
            | 0 <= j < r@.len() ==> (#[trigger] r@[j]) matches Outcome::Noop),
            (event matches Event::Keyboard(_) ==> forall|j: int|
                0 <= j < r@.len() ==> !((#[trigger] r@[j]) matches Outcome::MoveElement { .. })),
            ((event matches Event::Mouse(_)) || (event matches Event::Keyboard(_)) ==> ({
                let stepped = crate::drag::drag_step(
                    old(self).drag_handler,
                    crate::drag::drag_inputs(old(self).drag_handler, *event),
                    old(self).document.elements@,
                    old(self).camera,
                );
                &&& r@.len() >= 1
                &&& r@[0] == stepped.1
                &&& forall|j: int|
                    1 <= j < r@.len() ==> !((#[trigger] r@[j]) matches
                        Outcome::MoveElement { .. })
            })),
    {
        self.drag_handler.handle(event, &self.document.elements, self.camera)
    }

    /// Runs the keypress handler; distils what outcome application
    /// needs: the outcome is nothing, or a freshly numbered element.
    #[verifier::rlimit(60)]
    #[verifier::spinoff_prover]
    fn run_kp_handler(&mut self, event: &Event, dialog_active: bool) -> (r: (Outcome, bool))
        requires
            old(self).keypress_handler.wf(),
        ensures
            final(self).document == old(self).document,
            final(self).camera == old(self).camera,
            final(self).ws_connected == old(self).ws_connected,
            final(self).canvas == old(self).canvas,
            final(self).ids.next >= old(self).ids.next,
            final(self).websocket_handler == old(self).websocket_handler,
            final(self).drag_handler == old(self).drag_handler,
            final(self).hover_handler == old(self).hover_handler,
            final(self).keypress_handler.wf(),
            (match r.0 {
                Outcome::AddElement(el) => {
                    &&& el.id.0 >= old(self).ids.next
                    &&& el.id.0 < final(self).ids.next
                    &&& el.hovered() == false
                },
                _ => r.0 matches Outcome::Noop && final(self).ids == old(self).ids,
            }),
            (event matches Event::Mouse(_) ==> r.0 matches Outcome::Noop),
            (event matches Event::WebSocket(_) ==> r.0 matches Outcome::Noop),
            (event matches Event::PromptResponse { .. } ==> r.0 matches Outcome::Noop),
            (event matches Event::Keyboard(crate::event::KeyboardEvent::Down { .. }) ==> r.0
                matches Outcome::Noop),
            (match event {
                Event::Keyboard(crate::event::KeyboardEvent::Up { key }) => {
                    &&& (!(old(self).keypress_handler.holds(key@) && !dialog_active && key@
                        == "a"@ && old(self).ids.next < u64::MAX) ==> r.0 matches Outcome::Noop)
                    &&& (old(self).keypress_handler.holds(key@) && !dialog_active && key@ == "a"@
                        && old(self).ids.next < u64::MAX ==> (r.0 matches Outcome::AddElement(el)
                        && el.id.0 == old(self).ids.next && (
                    el.inner matches crate::element::ElementType::Class(c) && c.x == old(self).keypress_handler.spawn_x(old(self).camera) && c.y == old(self).keypress_handler.spawn_y(
                        old(self).camera,
                    ) && c.title.text@ == "Test class"@ && c.radius == Some(3u32))))
                },
                _ => true,
            }),
    {
        self.keypress_handler.handle(event, &self.camera, dialog_active, &mut self.ids)
    }
}


impl<C: Canvas> State<C> {
    /// Runs the websocket handler; an authoritative document arrives
    /// freshly numbered, unhovered and synchronised.
    #[verifier::rlimit(100)]
    #[verifier::spinoff_prover]
    fn run_ws_handler(&mut self, event: &Event) -> (r: Outcome)
        ensures
            final(self).document == old(self).document,
            final(self).camera == old(self).camera,
            final(self).ws_connected == old(self).ws_connected,
            final(self).canvas == old(self).canvas,
            final(self).ids.next >= old(self).ids.next,
            final(self).websocket_handler == old(self).websocket_handler,
            final(self).drag_handler == old(self).drag_handler,
            final(self).keypress_handler == old(self).keypress_handler,
            final(self).hover_handler == old(self).hover_handler,
            (match r {
                Outcome::UpdateDocument(d) => {
                    &&& ids_generated(
                        d.elements@.map_values(|e: Element| e.id),
                        final(self).ids,
                    )
                    &&& forall|i: int|
                        0 <= i < d.elements@.len() ==> (#[trigger] d.elements@[i]).hovered()
                            == false
                    &&& d.synchronized == true
                },
                _ => r matches Outcome::Noop,
            }),
            (!(event matches Event::WebSocket(_)) ==> (r matches Outcome::Noop && final(self).ids
                == old(self).ids)),
            (match event {
                Event::WebSocket(WsEvent::Received(SocketMessage::Text(s))) => {
                    match parse_document(encode_utf8(s@)) {
                        Some(w) => {
                            if old(self).ids.next + w.elements.len() <= u64::MAX {
                                (r matches Outcome::UpdateDocument(d) && d.color == w.color
                                    && d.synchronized == true && d.elements@.len()
                                    == w.elements.len() && (forall|i: int|
                                    0 <= i < d.elements@.len()
                                        ==> crate::parse::element_from_wire(
                                        #[trigger] d.elements@[i],
                                        w.elements[i],
                                    )))
                            } else {
                                r matches Outcome::Noop
                            }
                        },
                        None => r matches Outcome::Noop,
                    }
                },
                Event::WebSocket(_) => r matches Outcome::Noop,
                _ => true,
            }),
    {
        self.websocket_handler.handle(event, &mut self.ids)
    }
}

impl<C: Canvas> State<C> {
    /// Runs the four handlers, in order, against the same snapshot of
    /// the document and the camera, and collects their outcomes for
    /// application.
    #[verifier::rlimit(100)]
    #[verifier::spinoff_prover]
    fn run_handlers(&mut self, event: &Event, dialog_active: bool) -> (r: (
        Vec<Outcome>,
        Outcome,
        (Outcome, bool),
        Vec<Outcome>,
    ))
        requires
            old(self).wf(),
        ensures
            final(self).document == old(self).document,
            final(self).camera == old(self).camera,
            final(self).ws_connected == old(self).ws_connected,
            final(self).canvas == old(self).canvas,
            final(self).ids.next >= old(self).ids.next,
            final(self).keypress_handler.wf(),
            forall|j: int|
                0 <= j < r.0@.len() ==> !((#[trigger] r.0@[j]) matches Outcome::AddElement(_))
                    && !(r.0@[j] matches Outcome::UpdateDocument(_)) && !(r.0@[j] matches
                    Outcome::HoverElement { .. }),
            (match r.1 {
                Outcome::UpdateDocument(d) => {
                    &&& ids_generated(
                        d.elements@.map_values(|e: Element| e.id),
                        final(self).ids,
                    )
                    &&& forall|i: int|
                        0 <= i < d.elements@.len() ==> (#[trigger] d.elements@[i]).hovered()
                            == false
                    &&& d.synchronized == true
                },
                _ => r.1 matches Outcome::Noop,
            }),
            (match r.2.0 {
                Outcome::AddElement(el) => {
                    &&& el.id.0 < final(self).ids.next
                    &&& el.id.0 >= old(self).ids.next
                    &&& forall|i: int|
                        0 <= i < old(self).document.elements@.len() ==> (#[trigger] old(self).document.elements@[i]).id != el.id
                    &&& el.hovered() == false
                },
                _ => r.2.0 matches Outcome::Noop,
            }),
            (r.1 matches Outcome::UpdateDocument(_) ==> r.2.0 matches Outcome::Noop && (forall|
                j: int,
            | 0 <= j < r.0@.len() ==> (#[trigger] r.0@[j]) matches Outcome::Noop)),
            (r.2.0 matches Outcome::AddElement(_) ==> r.1 matches Outcome::Noop),
            (event matches Event::Mouse(_) ==> r.1 matches Outcome::Noop && r.2.0 matches
                Outcome::Noop),
            (event matches Event::Keyboard(_) ==> r.1 matches Outcome::Noop),
            (event matches Event::WebSocket(_) ==> r.2.0 matches Outcome::Noop),
            (event matches Event::PromptResponse { .. } ==> r.1 matches Outcome::Noop && r.2.0
                matches Outcome::Noop),
            (!(event matches Event::Mouse(_)) && !(event matches Event::Keyboard(_)) ==> forall|
                j: int,
            | 0 <= j < r.0@.len() ==> (#[trigger] r.0@[j]) matches Outcome::Noop),
            (event matches Event::Keyboard(_) ==> forall|j: int|
                0 <= j < r.0@.len() ==> !((#[trigger] r.0@[j]) matches
                    Outcome::MoveElement { .. })),
            ((event matches Event::Mouse(_)) || (event matches Event::Keyboard(_)) ==> ({
                let stepped = crate::drag::drag_step(
                    old(self).drag_handler,
                    crate::drag::drag_inputs(old(self).drag_handler, *event),
                    old(self).document.elements@,
                    old(self).camera,
                );
                &&& r.0@.len() >= 1
                &&& r.0@[0] == stepped.1
                &&& forall|j: int|
                    1 <= j < r.0@.len() ==> !((#[trigger] r.0@[j]) matches
                        Outcome::MoveElement { .. })
            })),
            (match event {
                Event::WebSocket(WsEvent::Received(SocketMessage::Text(s))) => {
                    match parse_document(encode_utf8(s@)) {
                        Some(w) => {
                            if old(self).ids.next + w.elements.len() <= u64::MAX {
                                (r.1 matches Outcome::UpdateDocument(d) && d.color == w.color
                                    && d.synchronized == true && d.elements@.len()
                                    == w.elements.len() && (forall|i: int|
                                    0 <= i < d.elements@.len()
                                        ==> crate::parse::element_from_wire(
                                        #[trigger] d.elements@[i],
                                        w.elements[i],
                                    )))
                            } else {
                                r.1 matches Outcome::Noop
                            }
                        },
                        None => r.1 matches Outcome::Noop,
                    }
                },
                Event::WebSocket(_) => r.1 matches Outcome::Noop,
                _ => true,
            }),
            (match event {
                Event::Keyboard(KeyboardEvent::Up { key }) => {
                    &&& (!(old(self).keypress_handler.holds(key@) && !dialog_active && key@
                        == "a"@ && old(self).ids.next < u64::MAX) ==> r.2.0 matches Outcome::Noop)
                    &&& (old(self).keypress_handler.holds(key@) && !dialog_active && key@ == "a"@
                        && old(self).ids.next < u64::MAX ==> (r.2.0 matches Outcome::AddElement(
                        el,
                    ) && el.id.0 == old(self).ids.next && (
                    el.inner matches crate::element::ElementType::Class(c) && c.x == old(self).keypress_handler.spawn_x(old(self).camera) && c.y == old(self).keypress_handler.spawn_y(
                        old(self).camera,
                    ) && c.title.text@ == "Test class"@ && c.radius == Some(3u32))))
                },
                Event::Keyboard(KeyboardEvent::Down { .. }) => r.2.0 matches Outcome::Noop,
                _ => true,
            }),
            (match event {
                Event::Mouse(ev) => {
                    let hit = topmost_hit(
                        old(self).document.elements@,
                        clamp_i32(ev.x_spec() + old(self).camera.x) as int,
                        clamp_i32(ev.y_spec() + old(self).camera.y) as int,
                    );
                    &&& final(self).hover_handler.id == hit
                    &&& (hit == old(self).hover_handler.id ==> r.3@ == Seq::<Outcome>::empty())
                    &&& (hit != old(self).hover_handler.id ==> r.3@
                        == crate::hover::hover_outcomes(old(self).hover_handler.id, hit))
                },
                _ => final(self).hover_handler == old(self).hover_handler && r.3@ == Seq::<
                    Outcome,
                >::empty(),
            }),
    {
        let drag_outcomes = self.run_drag_handler(event);
        let ws_outcome = self.run_ws_handler(event);
        let kp = self.run_kp_handler(event, dialog_active);
        let hover_outcomes = self.hover_handler.handle(
            event,
            &self.document.elements,
            &self.camera,
        );
        proof {
            match &kp.0 {
                Outcome::AddElement(el) => {
                    assert forall|i: int|
                        0 <= i < old(self).document.elements@.len() implies (#[trigger] old(self).document.elements@[i]).id != el.id by {
                        assert(old(self).document.elements@.map_values(|e: Element| e.id)[i]
                            == old(self).document.elements@[i].id);
                        assert(old(self).document.elements@[i].id.0 < old(self).ids.next);
                    }
                },
                _ => {
                },
            }
        }
        (drag_outcomes, ws_outcome, kp, hover_outcomes)
    }
}

impl<C: Canvas> State<C> {
    /// Feeds one event through the core: the redraw/resize/connect
    /// events are answered directly; everything else runs through all
    /// four handlers against the same snapshot, their outcomes are
    /// applied in emission order, a prompt answer is delivered to its
    /// element, and a document-changing outcome ends in a
    /// synchronisation attempt. The returned effects are the outside
    /// work the host must perform.
    #[verifier::rlimit(100)]
    #[verifier::spinoff_prover]
    pub fn handle_event(&mut self, event: Event, dialog_active: bool) -> (fx: Effects)
        requires
            old(self).wf(),
        ensures
            final(self).wf(),
            final(self).ws_connected == old(self).ws_connected,
            (event matches Event::Redraw ==> *final(self) == *old(self) && fx == (Effects {
                redraw: true,
                ..Effects::none_spec()
            })),
            (event matches Event::Resize ==> *final(self) == *old(self) && fx == (Effects {
                resize: true,
                redraw: true,
                ..Effects::none_spec()
            })),
            (event matches Event::Initialize ==> *final(self) == *old(self) && fx == (Effects {
                connect: true,
                redraw: true,
                ..Effects::none_spec()
            })),
            (fx.sync_payload matches Some(p) ==> p@ == ser_document(final(self).document.wire())
                && final(self).document.synchronized),
            (fx.document_mutated ==> (final(self).document.synchronized <==> old(self).ws_connected)
                && (fx.sync_payload is Some <==> old(self).ws_connected)),
            (!fx.document_mutated ==> fx.sync_payload is None),
            (!fx.document_mutated && !fx.document_replaced && !(event matches
                Event::PromptResponse { .. }) ==> final(self).document.synchronized == old(self).document.synchronized),
            (fx.document_replaced && !fx.document_mutated ==> final(self).document.synchronized),
            (event matches Event::Mouse(ev) ==> {
                let hit = topmost_hit(
                    old(self).document.elements@,
                    clamp_i32(ev.x_spec() + old(self).camera.x) as int,
                    clamp_i32(ev.y_spec() + old(self).camera.y) as int,
                );
                &&& final(self).hover_handler.id == hit
                &&& hover_full(final(self).document.elements@, hit)
            }),
            (event matches Event::Mouse(_) ==> fx.document_mutated == (crate::drag::drag_step(
                old(self).drag_handler,
                crate::drag::drag_inputs(old(self).drag_handler, event),
                old(self).document.elements@,
                old(self).camera,
            ).1 matches Outcome::MoveElement { .. })),
            (event matches Event::Mouse(_) ==> final(self).document.elements@.len() == old(self).document.elements@.len() && (forall|i: int|
                0 <= i < old(self).document.elements@.len() ==> (#[trigger] final(self).document.elements@[i]).id == old(self).document.elements@[i].id)),
            (event matches Event::Mouse(_) ==> (match crate::drag::drag_step(
                old(self).drag_handler,
                crate::drag::drag_inputs(old(self).drag_handler, event),
                old(self).document.elements@,
                old(self).camera,
            ).1 {
                Outcome::MoveElement { id, x, y } => {
                    &&& (forall|i: int|
                        0 <= i < old(self).document.elements@.len() && old(self).document.elements@[i].id != id ==> crate::element::shape_unchanged(
                            old(self).document.elements@[i],
                            (#[trigger] final(self).document.elements@[i]),
                        ))
                    &&& (forall|i: int|
                        0 <= i < old(self).document.elements@.len() && (#[trigger] old(self).document.elements@[i]).id == id && (forall|j: int|
                            0 <= j < i ==> old(self).document.elements@[j].id != id)
                            ==> crate::element::element_moved_ignoring_hover(
                            old(self).document.elements@[i],
                            final(self).document.elements@[i],
                            x,
                            y,
                        ))
                },
                _ => forall|i: int|
                    0 <= i < old(self).document.elements@.len()
                        ==> crate::element::shape_unchanged(
                        old(self).document.elements@[i],
                        (#[trigger] final(self).document.elements@[i]),
                    ),
            })),
            (match event {
                Event::WebSocket(WsEvent::Received(SocketMessage::Text(s))) => {
                    match parse_document(encode_utf8(s@)) {
                        Some(w) => {
                            if old(self).ids.next + w.elements.len() <= u64::MAX {
                                &&& fx.document_replaced
                                &&& !fx.document_mutated
                                &&& final(self).document.synchronized
                                &&& final(self).document.color == w.color
                                &&& ws_replaced_ok(
                                    w.elements,
                                    final(self).document.elements@,
                                )
                            } else {
                                final(self).document == old(self).document
                                    && !fx.document_replaced
                            }
                        },
                        None => final(self).document == old(self).document
                            && !fx.document_replaced,
                    }
                },
                Event::WebSocket(_) => final(self).document == old(self).document
                    && !fx.document_replaced && !fx.document_mutated,
                _ => true,
            }),
            (match event {
                Event::Keyboard(KeyboardEvent::Up { key }) => {
                    &&& (old(self).keypress_handler.holds(key@) && !dialog_active && key@ == "a"@
                        && old(self).ids.next < u64::MAX ==> ({
                        let n = old(self).document.elements@.len() as int;
                        &&& final(self).document.elements@.len() == n + 1
                        &&& (forall|i: int|
                            0 <= i < n ==> (#[trigger] final(self).document.elements@[i]) == old(self).document.elements@[i])
                        &&& fx.document_mutated
                        &&& (final(self).document.elements@.last().inner matches
                            crate::element::ElementType::Class(c) && c.x == old(self).keypress_handler.spawn_x(old(self).camera) && c.y == old(self).keypress_handler.spawn_y(
                            old(self).camera,
                        ) && c.title.text@ == "Test class"@ && c.radius == Some(3u32))
                        &&& final(self).document.elements@.last().id.0 == old(self).ids.next
                        &&& (fx.open_prompt matches Some((pid, pr)) && pid == final(self).document.elements@.last().id && (pr matches Prompt::Text { value, .. }
                            && value@ == "Test class"@))
                    }))
                    &&& (!(old(self).keypress_handler.holds(key@) && !dialog_active && key@
                        == "a"@ && old(self).ids.next < u64::MAX) ==> !fx.document_mutated
                        && final(self).document.elements@ == old(self).document.elements@)
                },
                Event::Keyboard(KeyboardEvent::Down { .. }) => !fx.document_mutated && final(self).document.elements@ == old(self).document.elements@,
                _ => true,
            }),
            (match event {
                Event::PromptResponse { element_id, response } => {
                    &&& !fx.document_mutated
                    &&& !fx.document_replaced
                    &&& fx.sync_payload is None
                    &&& final(self).document.elements@.len() == old(self).document.elements@.len()
                    &&& (forall|i: int|
                        0 <= i < old(self).document.elements@.len() && old(self).document.elements@[i].id != element_id ==> (#[trigger] final(self).document.elements@[i]) == old(self).document.elements@[i])
                    &&& (forall|i: int|
                        0 <= i < old(self).document.elements@.len() && (#[trigger] old(self).document.elements@[i]).id == element_id && (forall|j: int|
                            0 <= j < i ==> old(self).document.elements@[j].id != element_id)
                            ==> crate::element::element_prompted(
                            old(self).document.elements@[i],
                            final(self).document.elements@[i],
                            response,
                        ))
                },
                _ => true,
            }),
    {
        match &event {
            Event::Redraw => {
                self.document.draw(&self.canvas, &self.camera);
                let mut fx = Effects::none();
                fx.redraw = true;
                return fx;
            },
            Event::Resize => {
                self.document.draw(&self.canvas, &self.camera);
                let mut fx = Effects::none();
                fx.resize = true;
                fx.redraw = true;
                return fx;
            },
            Event::Initialize => {
                self.document.draw(&self.canvas, &self.camera);
                let mut fx = Effects::none();
                fx.connect = true;
                fx.redraw = true;
                return fx;
            },
            _ => {
            },
        }

        let mut fx = Effects::none();
        let ghost snapshot = *self;

        let handler_results = self.run_handlers(&event, dialog_active);
        let (drag_outcomes, ws_outcome, kp, hover_outcomes) = handler_results;
        let kp_outcome = kp.0;
        let ghost kp_g = kp_outcome;
        let ghost ev_g = event;
        fx.close_dialog = kp.1;

        let ghost before_drag = *self;
        self.apply_simple_list(drag_outcomes, &mut fx);
        proof {
            assert forall|i: int|
                0 <= i < self.document.elements@.len() implies (
            #[trigger] self.document.elements@[i]).hovered()
                == before_drag.document.elements@[i].hovered() by {
                lemma_hover_flag_no_hover(
                    before_drag.document.elements@[i].hovered(),
                    drag_outcomes@,
                    before_drag.document.elements@[i].id,
                );
            }
            assert(self.document.elements@.map_values(|e: Element| e.id)
                =~= snapshot.document.elements@.map_values(|e: Element| e.id));
            lemma_ids_generated_mono(
                self.document.elements@.map_values(|e: Element| e.id),
                snapshot.ids,
                self.ids,
            );
        }

        let ghost after_drag = *self;
        let ghost ws_g = ws_outcome;
        self.apply_ws_outcome(ws_outcome, &mut fx);
        let ghost after_ws = *self;
        self.apply_kp_outcome(kp_outcome, &mut fx);

        let ghost before_hover = *self;
        self.apply_simple_list(hover_outcomes, &mut fx);
        proof {
            match event {
                Event::Mouse(mev) => {
                    let hit = topmost_hit(
                        snapshot.document.elements@,
                        clamp_i32(mev.x_spec() + snapshot.camera.x) as int,
                        clamp_i32(mev.y_spec() + snapshot.camera.y) as int,
                    );
                    if hit == snapshot.hover_handler.id {
                        assert forall|i: int|
                            0 <= i < self.document.elements@.len() implies (
                        #[trigger] self.document.elements@[i]).hovered()
                            == before_hover.document.elements@[i].hovered() by {
                            lemma_hover_flag_no_hover(
                                before_hover.document.elements@[i].hovered(),
                                hover_outcomes@,
                                before_hover.document.elements@[i].id,
                            );
                        }
                        assert(hover_full(self.document.elements@, hit));
                    } else {
                        lemma_hover_full_after(
                            before_hover.document.elements@,
                            self.document.elements@,
                            snapshot.hover_handler.id,
                            hit,
                        );
                    }
                },
                _ => {
                },
            }
            assert(self.document.elements@.map_values(|e: Element| e.id)
                =~= before_hover.document.elements@.map_values(|e: Element| e.id));
            lemma_ids_generated_mono(
                self.document.elements@.map_values(|e: Element| e.id),
                before_hover.ids,
                self.ids,
            );
        }

        if let Event::PromptResponse { element_id, response } = event {
            self.deliver_prompt(element_id, response);
            proof {
                assert(self.document.elements@.map_values(|e: Element| e.id)
                    =~= before_hover.document.elements@.map_values(|e: Element| e.id));
            }
        }

        proof {
            match ev_g {
                Event::Mouse(mev) => {
                    let hit = topmost_hit(
                        snapshot.document.elements@,
                        clamp_i32(mev.x_spec() + snapshot.camera.x) as int,
                        clamp_i32(mev.y_spec() + snapshot.camera.y) as int,
                    );
                    crate::element::lemma_topmost_hit_in_ids(
                        snapshot.document.elements@,
                        clamp_i32(mev.x_spec() + snapshot.camera.x) as int,
                        clamp_i32(mev.y_spec() + snapshot.camera.y) as int,
                    );
                    match hit {
                        Some(h) => {
                            let w = choose|w: int|
                                0 <= w < snapshot.document.elements@.len() && (
                                #[trigger] snapshot.document.elements@[w]).id == h;
                            assert(snapshot.document.elements@.map_values(|e: Element| e.id)[w]
                                == h);
                            assert(h.0 < snapshot.ids.next);
                        },
                        None => {
                        },
                    }
                    assert(before_hover == after_ws);
                    assert(after_ws == after_drag);
                    let stepped = crate::drag::drag_step(
                        snapshot.drag_handler,
                        crate::drag::drag_inputs(snapshot.drag_handler, ev_g),
                        snapshot.document.elements@,
                        snapshot.camera,
                    ).1;
                    match stepped {
                        Outcome::MoveElement { id, x, y } => {
                            assert forall|i: int|
                                0 <= i < snapshot.document.elements@.len()
                                    && snapshot.document.elements@[i].id != id
                                    implies crate::element::shape_unchanged(
                                snapshot.document.elements@[i],
                                (#[trigger] self.document.elements@[i]),
                            ) by {
                                assert(after_drag.document.elements@[i]
                                    == snapshot.document.elements@[i]);
                            }
                            assert forall|i: int|
                                0 <= i < snapshot.document.elements@.len() && (
                            #[trigger] snapshot.document.elements@[i]).id == id && (forall|
                                j: int,
                            |
                                0 <= j < i ==> snapshot.document.elements@[j].id != id)
                                implies crate::element::element_moved_ignoring_hover(
                                snapshot.document.elements@[i],
                                self.document.elements@[i],
                                x,
                                y,
                            ) by {
                                assert(crate::element::element_moved(
                                    snapshot.document.elements@[i],
                                    after_drag.document.elements@[i],
                                    x,
                                    y,
                                ));
                                assert(crate::element::shape_unchanged(
                                    after_drag.document.elements@[i],
                                    self.document.elements@[i],
                                ));
                            }
                        },
                        _ => {
                            assert forall|i: int|
                                0 <= i < snapshot.document.elements@.len()
                                    implies crate::element::shape_unchanged(
                                snapshot.document.elements@[i],
                                (#[trigger] self.document.elements@[i]),
                            ) by {
                                crate::element::lemma_shape_unchanged_trans(
                                    snapshot.document.elements@[i],
                                    after_drag.document.elements@[i],
                                    self.document.elements@[i],
                                );
                            }
                        },
                    }
                },
                Event::Keyboard(_) => {
                    match kp_g {
                        Outcome::AddElement(el) => {
                            let n = self.document.elements@.len() as int;
                            assert(self.hover_handler.id == snapshot.hover_handler.id);
                            assert forall|i: int|
                                0 <= i < n implies ((#[trigger] self.document.elements@[i]).hovered()
                                <==> self.hover_handler.id == Some(
                                self.document.elements@[i].id,
                            )) by {
                                if i < n - 1 {
                                    assert(self.document.elements@[i].hovered()
                                        == before_hover.document.elements@[i].hovered());
                                    assert(self.document.elements@[i].id
                                        == before_hover.document.elements@[i].id);
                                    assert(before_hover.document.elements@[i]
                                        == after_ws.document.elements@[i]);
                                    assert(after_ws.document.elements@[i]
                                        == after_drag.document.elements@[i]);
                                    assert(after_drag.document.elements@[i].hovered()
                                        == snapshot.document.elements@[i].hovered());
                                    assert(after_drag.document.elements@[i].id
                                        == snapshot.document.elements@[i].id);
                                } else {
                                    assert(self.document.elements@[i].hovered() == false);
                                    assert(el.id.0 >= snapshot.ids.next);
                                    match snapshot.hover_handler.id {
                                        Some(h) => {
                                            assert(h.0 < snapshot.ids.next);
                                        },
                                        None => {
                                        },
                                    }
                                }
                            }
                            assert(hover_full(
                                self.document.elements@,
                                self.hover_handler.id,
                            ));
                        },
                        _ => {
                        },
                    }
                },
                Event::WebSocket(WsEvent::Received(SocketMessage::Text(st))) => {
                    match parse_document(encode_utf8(st@)) {
                        Some(w) => {
                            if snapshot.ids.next + w.elements.len() <= u64::MAX {
                                match ws_g {
                                    Outcome::UpdateDocument(d) => {
                                        assert(*self == before_hover);
                                        assert(before_hover == after_ws);
                                        assert(fx.document_replaced);
                                        assert(!fx.document_mutated);
                                        assert(self.document.synchronized);
                                        assert(d.color == w.color);
                                        assert(self.document.color == w.color);
                                        assert(self.document.elements@.len() == w.elements.len());
                                        assert forall|i: int|
                                            0 <= i < w.elements.len() implies
                                            #[trigger] wire_element_settled(
                                            w.elements[i],
                                            self.document.elements@[i],
                                        ) by {
                                            assert(crate::parse::element_from_wire(
                                                d.elements@[i],
                                                w.elements[i],
                                            ) && crate::element::element_initialized(
                                                d.elements@[i],
                                                self.document.elements@[i],
                                            ));
                                        }
                                        assert(ws_replaced_ok(
                                            w.elements,
                                            self.document.elements@,
                                        ));
                                    },
                                    _ => {
                                        assert(false);
                                    },
                                }
                            } else {
                                assert(*self == before_hover);
                                assert(before_hover == after_ws);
                                assert(after_ws == after_drag);
                                assert(after_drag.document == snapshot.document);
                                assert(!fx.document_replaced);
                            }
                        },
                        None => {
                            assert(*self == before_hover);
                            assert(before_hover == after_ws);
                            assert(after_ws == after_drag);
                            assert(after_drag.document == snapshot.document);
                            assert(!fx.document_replaced);
                        },
                    }
                },
                Event::WebSocket(_) => {
                    assert(*self == before_hover);
                    assert(before_hover == after_ws);
                    assert(after_ws == after_drag);
                    assert(after_drag.document == snapshot.document);
                    assert(!fx.document_replaced);
                    assert(!fx.document_mutated);
                },
                _ => {
                },
            }
            assert(self.keypress_handler.wf());
        }

        if fx.document_mutated {
            match self.sync_document() {
                Some(payload) => {
                    fx.sync_payload = Some(payload);
                },
                None => {
                },
            }
        }

        fx
    }
}


/// At most one element is ever hovered: flags that agree with the
/// hover handler over pairwise-distinct identifiers cannot mark two
/// elements at once, and the marked one is the handler's.
pub proof fn lemma_at_most_one_hovered(elements: Seq<Element>, hid: Option<Id>)
    requires
        hover_full(elements, hid),
        forall|a: int, b: int|
            0 <= a < b < elements.len() ==> (#[trigger] elements[a]).id != (
            #[trigger] elements[b]).id,
    ensures
        forall|a: int, b: int|
            0 <= a < b < elements.len() ==> !((#[trigger] elements[a]).hovered() && (
            #[trigger] elements[b]).hovered()),
        forall|a: int|
            0 <= a < elements.len() && (#[trigger] elements[a]).hovered() ==> hid == Some(
                elements[a].id,
            ),
{
}

} // verus!
