use vstd::prelude::*;

use crate::camera::{clamp_i32, Camera};
use crate::element::{find_topmost, topmost_hit, Element};
use crate::event::Event;
use crate::id::Id;
use crate::outcome::Outcome;

verus! {

/// Follows the pointer and reconciles which single element counts as
/// hovered: the topmost one under the world-space cursor.
#[derive(Debug, Clone, Copy, PartialEq, Eq, Structural)]
pub struct HoverHandler {
    pub id: Option<Id>,
}

impl Default for HoverHandler {
    fn default() -> (h: Self)
        ensures
            h.id is None,
    {
        HoverHandler { id: None }
    }
}

/// The outcomes a hover change emits: leave the old element, enter the
/// new one, either half omitted when absent.
pub open spec fn hover_outcomes(prev: Option<Id>, next: Option<Id>) -> Seq<Outcome> {
    (match prev {
        Some(p) => seq![Outcome::HoverElement { id: p, hovered: false }],
        None => Seq::empty(),
    }) + (match next {
        Some(n) => seq![Outcome::HoverElement { id: n, hovered: true }],
        None => Seq::empty(),
    })
}

impl HoverHandler {
    /// On any pointer event, finds the topmost element under the
    /// world-space cursor; when it differs from the previous one,
    /// emits the leave/enter pair and remembers the new element.
    /// Other events change nothing.
    pub fn handle(&mut self, event: &Event, elements: &Vec<Element>, camera: &Camera) -> (r: Vec<
        Outcome,
    >)
        ensures
            (match event {
                Event::Mouse(ev) => {
                    let hit = topmost_hit(
                        elements@,
                        clamp_i32(ev.x_spec() + camera.x) as int,
                        clamp_i32(ev.y_spec() + camera.y) as int,
                    );
                    &&& final(self).id == hit
                    &&& (hit == old(self).id ==> r@ == Seq::<Outcome>::empty())
                    &&& (hit != old(self).id ==> r@ == hover_outcomes(old(self).id, hit))
                },
                _ => *final(self) == *old(self) && r@ == Seq::<Outcome>::empty(),
            }),
    {
        let ev = match event {
            Event::Mouse(ev) => ev,
            _ => {
                return Vec::new();
            },
        };

        let wx = crate::camera::saturating_add_i32(ev.x(), camera.x);
        let wy = crate::camera::saturating_add_i32(ev.y(), camera.y);

        let hit = find_topmost(elements, wx, wy);

        let same = match (hit, self.id) {
            (Option::None, Option::None) => true,
            (Option::Some(a), Option::Some(b)) => a.0 == b.0,
            _ => false,
        };
        if same {
            proof {
                assert(hit == old(self).id);
            }
            return Vec::new();
        }

        let ghost prev0 = self.id;
        let mut outcomes: Vec<Outcome> = Vec::new();
        if let Some(prev) = self.id {
            outcomes.push(Outcome::HoverElement { id: prev, hovered: false });
        }
        if let Some(next) = hit {
            outcomes.push(Outcome::HoverElement { id: next, hovered: true });
        }
        self.id = hit;
        proof {
            assert(outcomes@ =~= hover_outcomes(prev0, hit));
        }
        outcomes
    }
}

} // verus!
