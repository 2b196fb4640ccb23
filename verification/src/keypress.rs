use vstd::prelude::*;

use crate::camera::{clamp_i32, Camera};
use crate::class::Class;
use crate::element::Element;
use crate::event::{str_eq, Event, KeyboardEvent};
use crate::id::IdGenerator;
use crate::outcome::Outcome;

verus! {

/// Turns completed key presses into edits. Keys are tracked as a set
/// so the operating system's key repeat only fires once, and the
/// latest pointer position decides where new elements appear.
#[derive(Debug, Clone, PartialEq)]
pub struct KeypressHandler {
    pub x: i32,
    pub y: i32,
    pub keys: Vec<String>,
}

impl Default for KeypressHandler {
    fn default() -> (h: Self)
        ensures
            h.x == 0 && h.y == 0 && h.keys@.len() == 0,
    {
        KeypressHandler { x: 0, y: 0, keys: Vec::new() }
    }
}

impl KeypressHandler {
    /// Whether `k` is currently held.
    pub open spec fn holds(self, k: Seq<char>) -> bool {
        exists|i: int| 0 <= i < self.keys@.len() && (#[trigger] self.keys@[i])@ == k
    }

    /// The held-key set never holds a key twice.
    pub open spec fn wf(self) -> bool {
        forall|i: int, j: int|
            0 <= i < j < self.keys@.len() ==> (#[trigger] self.keys@[i])@ != (
            #[trigger] self.keys@[j])@
    }

    fn contains_key(&self, k: &str) -> (r: bool)
        ensures
            r == self.holds(k@),
    {
        let mut i: usize = 0;
        while i < self.keys.len()
            invariant
                i <= self.keys@.len(),
                forall|j: int| 0 <= j < i ==> (#[trigger] self.keys@[j])@ != k@,
            decreases self.keys@.len() - i,
        {
            if str_eq(self.keys[i].as_str(), k) {
                return true;
            }
            i = i + 1;
        }
        false
    }

    /// Removes a held key, if present.
    fn remove_key(&mut self, k: &str)
        requires
            old(self).wf(),
        ensures
            final(self).wf(),
            !final(self).holds(k@),
            forall|q: Seq<char>| q != k@ ==> final(self).holds(q) == old(self).holds(q),
            final(self).x == old(self).x && final(self).y == old(self).y,
    {
        let mut i: usize = 0;
        while i < self.keys.len()
            invariant
                i <= self.keys@.len(),
                self.wf(),
                self.x == old(self).x && self.y == old(self).y,
                self.keys@ == old(self).keys@,
                forall|j: int| 0 <= j < i ==> (#[trigger] self.keys@[j])@ != k@,
            decreases self.keys@.len() - i,
        {
            if str_eq(self.keys[i].as_str(), k) {
                let ghost pre = self.keys@;
                self.keys.remove(i);
                proof {
                    assert forall|q: Seq<char>| q != k@ implies self.holds(q) == old(
                        self,
                    ).holds(q) by {
                        if old(self).holds(q) {
                            let w = choose|w: int|
                                0 <= w < pre.len() && (#[trigger] pre[w])@ == q;
                            if w < i {
                                assert(self.keys@[w]@ == q);
                            } else {
                                assert(self.keys@[w - 1]@ == q);
                            }
                        }
                        if self.holds(q) {
                            let w = choose|w: int|
                                0 <= w < self.keys@.len() && (#[trigger] self.keys@[w])@ == q;
                            if w < i {
                                assert(pre[w]@ == q);
                            } else {
                                assert(pre[w + 1]@ == q);
                            }
                        }
                    }
                    assert forall|w: int|
                        0 <= w < self.keys@.len() implies (#[trigger] self.keys@[w])@ != k@ by {
                        if w < i {
                            assert(self.keys@[w] == pre[w]);
                        } else {
                            assert(self.keys@[w] == pre[w + 1]);
                        }
                    }
                }
                return ;
            }
            i = i + 1;
        }
    }

    /// The world position a new element would be created at.
    pub open spec fn spawn_x(self, camera: Camera) -> i32 {
        clamp_i32(self.x + camera.x)
    }

    pub open spec fn spawn_y(self, camera: Camera) -> i32 {
        clamp_i32(self.y + camera.y)
    }

    /// Runs one event through the handler. Pointer events only cache
    /// the position. A key release that was seen going down acts once:
    /// while a prompt dialog is open, `Escape` asks to close it and
    /// everything else is suppressed; otherwise `a` adds a fresh class
    /// at the cursor's world position. The second result is the
    /// request to close the dialog.
    pub fn handle(
        &mut self,
        event: &Event,
        camera: &Camera,
        dialog_active: bool,
        gen: &mut IdGenerator,
    ) -> (r: (Outcome, bool))
        requires
            old(self).wf(),
        ensures
            final(self).wf(),
            (match event {
                Event::Mouse(ev) => {
                    &&& final(self).x == ev.x_spec() && final(self).y == ev.y_spec()
                    &&& final(self).keys@ == old(self).keys@
                    &&& r == (Outcome::Noop, false)
                    &&& *final(gen) == *old(gen)
                },
                Event::Keyboard(KeyboardEvent::Down { key }) => {
                    &&& final(self).holds(key@)
                    &&& final(self).x == old(self).x && final(self).y == old(self).y
                    &&& forall|q: Seq<char>| q != key@ ==> final(self).holds(q) == old(
                        self,
                    ).holds(q)
                    &&& r == (Outcome::Noop, false)
                    &&& *final(gen) == *old(gen)
                },
                Event::Keyboard(KeyboardEvent::Up { key }) => {
                    &&& !final(self).holds(key@)
                    &&& final(self).x == old(self).x && final(self).y == old(self).y
                    &&& forall|q: Seq<char>| q != key@ ==> final(self).holds(q) == old(
                        self,
                    ).holds(q)
                    &&& (!old(self).holds(key@) ==> r == (Outcome::Noop, false) && *final(gen)
                        == *old(gen))
                    &&& (old(self).holds(key@) && dialog_active ==> r == (
                        Outcome::Noop,
                        key@ == "Escape"@,
                    ) && *final(gen) == *old(gen))
                    &&& (old(self).holds(key@) && !dialog_active && key@ != "a"@ ==> r == (
                        Outcome::Noop,
                        false,
                    ) && *final(gen) == *old(gen))
                    &&& (old(self).holds(key@) && !dialog_active && key@ == "a"@ && old(gen).next
                        < u64::MAX ==> (r.1 == false && final(gen).next == old(gen).next + 1 && (
                    r.0 matches Outcome::AddElement(el) && el.id.0 == old(gen).next && (
                    el.inner matches crate::element::ElementType::Class(c) && c.x == old(
                        self,
                    ).spawn_x(*camera) && c.y == old(self).spawn_y(*camera) && c.title.text@
                        == "Test class"@ && c.radius == Some(3u32) && el.hovered() == false))))
                    &&& (old(self).holds(key@) && !dialog_active && key@ == "a"@ && old(gen).next
                        == u64::MAX ==> r == (Outcome::Noop, false) && *final(gen) == *old(gen))
                },
                _ => r == (Outcome::Noop, false) && *final(self) == *old(self) && *final(gen)
                    == *old(gen),
            }),
    {
        if let Event::Mouse(ev) = event {
            self.x = ev.x();
            self.y = ev.y();
            return (Outcome::Noop, false);
        }

        let kev = match event {
            Event::Keyboard(kev) => kev,
            _ => {
                return (Outcome::Noop, false);
            },
        };

        match kev {
            KeyboardEvent::Down { key } => {
                if !self.contains_key(key.as_str()) {
                    let ghost pre = self.keys@;
                    self.keys.push(key.clone());
                    proof {
                        assert(self.keys@[pre.len() as int]@ == key@);
                        assert forall|q: Seq<char>| q != key@ implies self.holds(q) == old(
                            self,
                        ).holds(q) by {
                            if self.holds(q) {
                                let w = choose|w: int|
                                    0 <= w < self.keys@.len() && (#[trigger] self.keys@[w])@ == q;
                                assert(pre[w]@ == q);
                            }
                            if old(self).holds(q) {
                                let w = choose|w: int|
                                    0 <= w < pre.len() && (#[trigger] pre[w])@ == q;
                                assert(self.keys@[w]@ == q);
                            }
                        }
                    }
                }
                (Outcome::Noop, false)
            },
            KeyboardEvent::Up { key } => {
                if !self.contains_key(key.as_str()) {
                    return (Outcome::Noop, false);
                }
                self.remove_key(key.as_str());

                if dialog_active {
                    return (Outcome::Noop, str_eq(key.as_str(), "Escape"));
                }

                if str_eq(key.as_str(), "a") {
                    if gen.can_issue() {
                        let x = crate::camera::saturating_add_i32(self.x, camera.x);
                        let y = crate::camera::saturating_add_i32(self.y, camera.y);
                        let class = Class::new(
                            x,
                            y,
                            "Test class".to_owned(),
                            None,
                            None,
                            Some(3),
                        );
                        let id = gen.fresh();
                        return (Outcome::AddElement(Element::from_class(class, id)), false);
                    }
                    return (Outcome::Noop, false);
                }

                (Outcome::Noop, false)
            },
        }
    }
}

} // verus!
