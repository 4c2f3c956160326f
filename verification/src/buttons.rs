//! Edge detection on buttons and on the hat switch.
//!
//! A button causes an event when it goes down, never when it comes up, and
//! of the buttons that went down since the last snapshot only the one with
//! the lowest number is reported. The hat switch causes an event when it
//! turns to a direction that it did not have in the last snapshot.

use crate::events::HatDirection;
use vstd::prelude::*;

verus! {

/// Whether button `b` is down now and was not down before.
pub open spec fn is_new_button(prev: Seq<u32>, cur: Seq<u32>, b: u32) -> bool {
    cur.contains(b) && !prev.contains(b)
}

/// Whether `b` is the lowest of the buttons that went down.
pub open spec fn is_lowest_new_button(prev: Seq<u32>, cur: Seq<u32>, b: u32) -> bool {
    is_new_button(prev, cur, b) && forall|c: u32| is_new_button(prev, cur, c) ==> b <= c
}

/// The button that is reported: the lowest of the buttons that went
/// down, if any did.
pub open spec fn lowest_new_button(prev: Seq<u32>, cur: Seq<u32>) -> Option<u32> {
    if exists|b: u32| is_new_button(prev, cur, b) {
        Some(choose|b: u32| is_lowest_new_button(prev, cur, b))
    } else {
        None
    }
}

/// Whether a list of buttons holds the button.
pub fn holds_button(buttons: &Vec<u32>, b: u32) -> (found: bool)
    ensures
        found == buttons@.contains(b),
{
    let mut i: usize = 0;
    while i < buttons.len()
        invariant
            i <= buttons.len(),
            forall|j: int| 0 <= j < i ==> buttons@[j] != b,
        decreases buttons.len() - i,
    {
        if buttons[i] == b {
            return true;
        }
        i += 1;
    }
    false
}

/// The button to report for a snapshot: the lowest-numbered button that
/// is down in `cur` and was not down in `prev`.
///
/// A button that stays down and a button that comes up cause nothing.
pub fn first_new_button(prev: &Vec<u32>, cur: &Vec<u32>) -> (found: Option<u32>)
    ensures
        found == lowest_new_button(prev@, cur@),
        match found {
            Some(b) => is_lowest_new_button(prev@, cur@, b),
            None => forall|b: u32| cur@.contains(b) ==> prev@.contains(b),
        },
{
    let mut best: Option<u32> = None;
    let mut i: usize = 0;
    while i < cur.len()
        invariant
            i <= cur.len(),
            match best {
                Some(b) => is_new_button(prev@, cur@, b) && forall|j: int|
                    0 <= j < i && !prev@.contains(cur@[j]) ==> b <= cur@[j],
                None => forall|j: int| 0 <= j < i ==> prev@.contains(cur@[j]),
            },
        decreases cur.len() - i,
    {
        let b = cur[i];
        if !holds_button(prev, b) {
            let lower = match best {
                Some(known) => b < known,
                None => true,
            };
            if lower {
                best = Some(b);
            }
        }
        i += 1;
    }
    proof {
        match best {
            Some(b) => {
                assert forall|c: u32| is_new_button(prev@, cur@, c) implies b <= c by {
                    let j = choose|j: int| 0 <= j < cur@.len() && cur@[j] == c;
                    assert(!prev@.contains(cur@[j]));
                }
                assert(is_lowest_new_button(prev@, cur@, b));
                let chosen = choose|x: u32| is_lowest_new_button(prev@, cur@, x);
                assert(is_lowest_new_button(prev@, cur@, chosen));
                assert(chosen == b);
            },
            None => {
                assert forall|c: u32| !is_new_button(prev@, cur@, c) by {
                    if cur@.contains(c) {
                        let j = choose|j: int| 0 <= j < cur@.len() && cur@[j] == c;
                        assert(prev@.contains(cur@[j]));
                    }
                }
            },
        }
    }
    best
}

/// A button that comes up causes nothing: where every button that is down
/// was down before, no button is reported.
pub proof fn lemma_release_is_silent(prev: Seq<u32>, cur: Seq<u32>)
    requires
        forall|b: u32| cur.contains(b) ==> prev.contains(b),
    ensures
        lowest_new_button(prev, cur) is None,
{
}

/// The button that is reported went down: it is down now and was not down
/// before, and no button with a lower number went down with it.
pub proof fn lemma_reported_button_went_down(prev: Seq<u32>, cur: Seq<u32>)
    requires
        lowest_new_button(prev, cur) is Some,
    ensures
        is_lowest_new_button(prev, cur, lowest_new_button(prev, cur).unwrap()),
{
    lemma_lowest_exists(prev, cur, choose|b: u32| is_new_button(prev, cur, b));
}

/// Among the buttons that went down there is a lowest one.
proof fn lemma_lowest_exists(prev: Seq<u32>, cur: Seq<u32>, b: u32)
    requires
        is_new_button(prev, cur, b),
    ensures
        exists|m: u32| is_lowest_new_button(prev, cur, m),
    decreases b,
{
    if exists|c: u32| is_new_button(prev, cur, c) && c < b {
        lemma_lowest_exists(prev, cur, choose|c: u32| is_new_button(prev, cur, c) && c < b);
    } else {
        assert(is_lowest_new_button(prev, cur, b));
    }
}

/// The direction that a raw hat value stands for. The values 0 to 7 count
/// the octants clockwise from the top, and each pair of neighbours falls
/// to one direction; any other value means that the hat is centered.
pub open spec fn hat_direction_of(raw: u16) -> Option<HatDirection> {
    if raw <= 1 {
        Some(HatDirection::Up)
    } else if raw <= 3 {
        Some(HatDirection::Right)
    } else if raw <= 5 {
        Some(HatDirection::Down)
    } else if raw <= 7 {
        Some(HatDirection::Left)
    } else {
        None
    }
}

/// The direction that a raw hat value stands for.
pub fn hat_direction(raw: u16) -> (d: Option<HatDirection>)
    ensures
        d == hat_direction_of(raw),
{
    if raw <= 1 {
        Some(HatDirection::Up)
    } else if raw <= 3 {
        Some(HatDirection::Right)
    } else if raw <= 5 {
        Some(HatDirection::Down)
    } else if raw <= 7 {
        Some(HatDirection::Left)
    } else {
        None
    }
}

/// The direction that the hat has turned to between two snapshots: the
/// direction of its value now, unless its value before stood for the same
/// direction. A hat that is centered now has turned to none.
pub open spec fn hat_turn_of(before: u16, now: u16) -> Option<HatDirection> {
    match hat_direction_of(now) {
        Some(d) => if hat_direction_of(before) == Some(d) {
            None
        } else {
            Some(d)
        },
        None => None,
    }
}

/// The direction that the hat has turned to between two snapshots.
pub fn hat_turn(before: u16, now: u16) -> (turned: Option<HatDirection>)
    ensures
        turned == hat_turn_of(before, now),
{
    match hat_direction(now) {
        Some(d) => {
            let same = match hat_direction(before) {
                Some(held) => held == d,
                None => false,
            };
            if same {
                None
            } else {
                Some(d)
            }
        },
        None => None,
    }
}

/// A hat that leaves its center turns to the direction of its new value,
/// and the two raw values of one direction turn it alike.
pub proof fn lemma_hat_turns_from_center(before: u16, now: u16)
    requires
        hat_direction_of(before) is None,
    ensures
        hat_turn_of(before, now) == hat_direction_of(now),
{
}

/// A hat that comes to its center, and a hat that stays in its direction,
/// turns to none.
pub proof fn lemma_hat_at_rest_is_silent(before: u16, now: u16)
    requires
        hat_direction_of(now) is None || hat_direction_of(now) == hat_direction_of(before),
    ensures
        hat_turn_of(before, now) is None,
{
}

} // verus!
