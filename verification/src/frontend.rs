//! One frame of the front end's loop: what it does with the window's events
//! and whether it goes on.

use crate::display::Display;
use crate::fuse::Fuse;
use crate::keypad::Keypad;
use vstd::prelude::*;

verus! {

/// What the window reported since the frame before.
#[derive(Clone, Copy, Debug, PartialEq, Eq, Structural)]
pub enum UiEvent {
    /// The key with this number went down.
    KeyDown(u8),
    /// The key with this number came up.
    KeyUp(u8),
    /// The user asked to close the window.
    Close,
}

/// The key states after one event. Events that name no key change nothing.
pub open spec fn keys_after_event(keys: Seq<bool>, event: UiEvent) -> Seq<bool> {
    match event {
        UiEvent::KeyDown(key) if key < 16 => keys.update(key as int, true),
        UiEvent::KeyUp(key) if key < 16 => keys.update(key as int, false),
        _ => keys,
    }
}

/// The key states after a run of events, taken in order.
pub open spec fn keys_after(keys: Seq<bool>, events: Seq<UiEvent>) -> Seq<bool>
    decreases events.len(),
{
    if events.len() == 0 {
        keys
    } else {
        keys_after_event(keys_after(keys, events.drop_last()), events.last())
    }
}

/// Whether one of the events asks to close the window.
pub open spec fn asks_to_close(events: Seq<UiEvent>) -> bool {
    exists|k: int| 0 <= k < events.len() && events[k] == UiEvent::Close
}

/// One frame of the front end. With the fuse tripped the loop must end:
/// there is `None` and nothing changes. Otherwise every key event reaches
/// the keypad, in order; a request to close trips the fuse and ends the
/// loop; and without one there is the frame to render.
pub fn frame(fuse: &mut Fuse, keypad: &mut Keypad, display: &Display, events: &[UiEvent]) -> (shown:
    Option<[bool; 2048]>)
    ensures
        old(fuse).tripped() ==> shown is None && *final(fuse) == *old(fuse) && final(keypad)@
            == old(keypad)@,
        !old(fuse).tripped() ==> {
            &&& final(keypad)@ == keys_after(old(keypad)@, events@)
            &&& final(fuse).tripped() == asks_to_close(events@)
            &&& shown is None <==> asks_to_close(events@)
            &&& shown matches Some(pixels) ==> pixels@ == display@
        },
{
    if fuse.is_tripped() {
        return None;
    }
    let mut closing = false;
    let mut k: usize = 0;
    while k < events.len()
        invariant
            k <= events@.len(),
            keypad@ == keys_after(old(keypad)@, events@.take(k as int)),
            closing == asks_to_close(events@.take(k as int)),
        decreases events@.len() - k,
    {
        let ghost seen = events@.take(k as int);
        let ghost next = events@.take(k as int + 1);
        proof {
            assert(next.drop_last() =~= seen);
            assert(next.last() == events@[k as int]);
            if asks_to_close(seen) {
                let w = choose|j: int| 0 <= j < seen.len() && seen[j] == UiEvent::Close;
                assert(next[w] == UiEvent::Close);
            }
            if asks_to_close(next) {
                let w = choose|j: int| 0 <= j < next.len() && next[j] == UiEvent::Close;
                if w < k {
                    assert(seen[w] == UiEvent::Close);
                }
            }
        }
        match events[k] {
            UiEvent::KeyDown(key) => keypad.set(key, true),
            UiEvent::KeyUp(key) => keypad.set(key, false),
            UiEvent::Close => {
                closing = true;
            },
        }
        k = k + 1;
    }
    assert(events@.take(k as int) =~= events@);
    if closing {
        fuse.trip();
        None
    } else {
        Some(display.snapshot())
    }
}

} // verus!
