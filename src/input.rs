use vstd::prelude::*;

verus! {

/// `codes` with `code` toggled: taken out where it is held, added last
/// where it is not.
pub open spec fn toggled(codes: Seq<u32>, code: u32) -> Seq<u32> {
    if codes.contains(code) {
        codes.remove(codes.index_of(code))
    } else {
        codes.push(code)
    }
}

/// Keys and mouse buttons held down, by code, in the order they went down,
/// with the latches of the edge queries.
///
/// A key or button event toggles its code: input events are taken to
/// alternate between press and release.
pub struct InputState {
    keys: Vec<u32>,
    buttons: Vec<u32>,
    key_press_latch: bool,
    key_release_latch: bool,
    click_latch: bool,
    release_latch: bool,
}

/// The position of `code` in `codes`, if it is there.
fn position_of(codes: &Vec<u32>, code: u32) -> (r: Option<usize>)
    ensures
        match r {
            Some(i) => i < codes.len() && codes@[i as int] == code && forall|k: int|
                0 <= k < i ==> codes@[k] != code,
            None => !codes@.contains(code),
        },
{
    let mut i: usize = 0;
    while i < codes.len()
        invariant
            i <= codes.len(),
            forall|k: int| 0 <= k < i ==> codes@[k] != code,
        decreases codes.len() - i,
    {
        if codes[i] == code {
            return Some(i);
        }
        i = i + 1;
    }
    None
}

fn toggle(codes: &mut Vec<u32>, code: u32)
    requires
        old(codes)@.no_duplicates(),
    ensures
        final(codes)@ == toggled(old(codes)@, code),
        final(codes)@.no_duplicates(),
{
    match position_of(codes, code) {
        Some(i) => {
            proof {
                assert(old(codes)@.contains(code));
                let j = old(codes)@.index_of(code);
                assert(old(codes)@[j] == code);
                assert(j == i as int);
            }
            codes.remove(i);
            proof {
                let o = old(codes)@;
                let n = codes@;
                assert forall|a: int, b: int| 0 <= a < n.len() && 0 <= b < n.len() && a != b implies n[a] != n[b] by {
                    let oa = if a < i { a } else { a + 1 };
                    let ob = if b < i { b } else { b + 1 };
                    assert(n[a] == o[oa]);
                    assert(n[b] == o[ob]);
                }
            }
        },
        None => {
            codes.push(code);
            proof {
                let o = old(codes)@;
                let n = codes@;
                assert forall|a: int, b: int| 0 <= a < n.len() && 0 <= b < n.len() && a != b implies n[a] != n[b] by {
                    if a == o.len() {
                        assert(!o.contains(code));
                        assert(n[b] == o[b]);
                    } else if b == o.len() {
                        assert(n[a] == o[a]);
                    }
                }
            }
        },
    }
}

fn copy_codes(codes: &Vec<u32>) -> (r: Vec<u32>)
    ensures
        r@ == codes@,
{
    let mut r: Vec<u32> = Vec::new();
    let mut i: usize = 0;
    while i < codes.len()
        invariant
            i <= codes.len(),
            r@ == codes@.subrange(0, i as int),
        decreases codes.len() - i,
    {
        r.push(codes[i]);
        i = i + 1;
        proof {
            assert(r@ =~= codes@.subrange(0, i as int));
        }
    }
    proof {
        assert(codes@.subrange(0, codes@.len() as int) =~= codes@);
    }
    r
}

impl InputState {
    /// The keys held down, in the order they went down.
    pub closed spec fn held_keys(&self) -> Seq<u32> {
        self.keys@
    }

    /// The mouse buttons held down, in the order they went down.
    pub closed spec fn held_buttons(&self) -> Seq<u32> {
        self.buttons@
    }

    /// No code is held twice.
    pub open spec fn wf(&self) -> bool {
        self.held_keys().no_duplicates() && self.held_buttons().no_duplicates()
    }

    /// The latches of `key_press`, `key_release`, `mouse_clicked` and
    /// `mouse_released`, in that order.
    pub closed spec fn latches(&self) -> (bool, bool, bool, bool) {
        (self.key_press_latch, self.key_release_latch, self.click_latch, self.release_latch)
    }

    /// Nothing held; the release queries start latched, as if a release had
    /// just been seen.
    pub fn new() -> (r: Self)
        ensures
            r.wf(),
            r.held_keys() == Seq::<u32>::empty(),
            r.held_buttons() == Seq::<u32>::empty(),
            r.latches() == (false, true, false, true),
    {
        InputState {
            keys: Vec::new(),
            buttons: Vec::new(),
            key_press_latch: false,
            key_release_latch: true,
            click_latch: false,
            release_latch: true,
        }
    }

    /// A keyboard event for key `code`.
    pub fn key_event(&mut self, code: u32)
        requires
            old(self).wf(),
        ensures
            final(self).wf(),
            final(self).held_keys() == toggled(old(self).held_keys(), code),
            final(self).held_buttons() == old(self).held_buttons(),
            final(self).latches() == old(self).latches(),
    {
        toggle(&mut self.keys, code);
    }

    /// A mouse button event for button `code`.
    pub fn button_event(&mut self, code: u32)
        requires
            old(self).wf(),
        ensures
            final(self).wf(),
            final(self).held_buttons() == toggled(old(self).held_buttons(), code),
            final(self).held_keys() == old(self).held_keys(),
            final(self).latches() == old(self).latches(),
    {
        toggle(&mut self.buttons, code);
    }

    /// Whether key `key` is held down.
    pub fn key_pressed(&self, key: u32) -> (r: bool)
        ensures
            r == self.held_keys().contains(key),
    {
        position_of(&self.keys, key).is_some()
    }

    /// The keys held down, in the order they went down.
    pub fn keys_pressed(&self) -> (r: Vec<u32>)
        ensures
            r@ == self.held_keys(),
    {
        copy_codes(&self.keys)
    }

    /// The mouse buttons held down, in the order they went down.
    pub fn mouse_clicks(&self) -> (r: Vec<u32>)
        ensures
            r@ == self.held_buttons(),
    {
        copy_codes(&self.buttons)
    }

    /// Fires when a call sees key `button` held while the latch is clear, and
    /// sets it; a call that sees the key up clears it. The latch is shared by
    /// every key.
    pub fn key_press(&mut self, button: u32) -> (r: bool)
        ensures
            r == (!old(self).latches().0 && old(self).held_keys().contains(button)),
            final(self).latches() == (
                old(self).held_keys().contains(button),
                old(self).latches().1,
                old(self).latches().2,
                old(self).latches().3,
            ),
            final(self).held_keys() == old(self).held_keys(),
            final(self).held_buttons() == old(self).held_buttons(),
    {
        let held = self.key_pressed(button);
        if self.key_press_latch {
            if !(held) {
                self.key_press_latch = false;
            }
            false
        } else {
            if held {
                self.key_press_latch = true;
                return true;
            }
            false
        }
    }

    /// The same edge query as `key_press`, on a latch of its own that starts
    /// set.
    pub fn key_release(&mut self, button: u32) -> (r: bool)
        ensures
            r == (!old(self).latches().1 && old(self).held_keys().contains(button)),
            final(self).latches() == (
                old(self).latches().0,
                old(self).held_keys().contains(button),
                old(self).latches().2,
                old(self).latches().3,
            ),
            final(self).held_keys() == old(self).held_keys(),
            final(self).held_buttons() == old(self).held_buttons(),
    {
        let held = self.key_pressed(button);
        if self.key_release_latch {
            if !(held) {
                self.key_release_latch = false;
            }
            false
        } else {
            if held {
                self.key_release_latch = true;
                return true;
            }
            false
        }
    }

    /// Fires when a call sees mouse button `button` held while the latch is
    /// clear, and sets it; a call that sees the button up clears it. The latch
    /// is shared by every button.
    pub fn mouse_clicked(&mut self, button: u32) -> (r: bool)
        ensures
            r == (!old(self).latches().2 && old(self).held_buttons().contains(button)),
            final(self).latches() == (
                old(self).latches().0,
                old(self).latches().1,
                old(self).held_buttons().contains(button),
                old(self).latches().3,
            ),
            final(self).held_keys() == old(self).held_keys(),
            final(self).held_buttons() == old(self).held_buttons(),
    {
        let held = position_of(&self.buttons, button).is_some();
        if self.click_latch {
            if !(held) {
                self.click_latch = false;
            }
            false
        } else {
            if held {
                self.click_latch = true;
                return true;
            }
            false
        }
    }

    /// Fires when a call sees mouse button `button` up while the latch is
    /// clear, and sets it; a call that sees the button held clears it. The
    /// latch starts set.
    pub fn mouse_released(&mut self, button: u32) -> (r: bool)
        ensures
            r == (!old(self).latches().3 && !old(self).held_buttons().contains(button)),
            final(self).latches() == (
                old(self).latches().0,
                old(self).latches().1,
                old(self).latches().2,
                !old(self).held_buttons().contains(button),
            ),
            final(self).held_keys() == old(self).held_keys(),
            final(self).held_buttons() == old(self).held_buttons(),
    {
        let held = position_of(&self.buttons, button).is_some();
        if self.release_latch {
            if !(!held) {
                self.release_latch = false;
            }
            false
        } else {
            if !held {
                self.release_latch = true;
                return true;
            }
            false
        }
    }
}

} // verus!
