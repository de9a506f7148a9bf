use vstd::arithmetic::div_mod::{lemma_mod_self_0, lemma_small_mod};
use vstd::prelude::*;

verus! {

/// A frame is due once more than `1 / frame_rate` seconds have passed since
/// the last change: `elapsed > 1_000_000 / frame_rate` microseconds, which for
/// whole microseconds is the same. An animation with a frame rate of zero
/// never moves on.
pub open spec fn frame_due(last_us: u64, now_us: u64, frame_rate: u8) -> bool {
    &&& frame_rate > 0
    &&& now_us > last_us
    &&& now_us - last_us > 1_000_000int / (frame_rate as int)
}

/// A named, looping sequence of textures shown at a fixed frame rate.
pub struct Animation {
    name: String,
    textures: Vec<String>,
    frame_rate: u8,
    current_frame: usize,
    last_frame_us: u64,
}

impl Animation {
    pub closed spec fn name_view(&self) -> Seq<char> {
        self.name@
    }

    /// The texture paths of the frames, in order.
    pub closed spec fn frames(&self) -> Seq<String> {
        self.textures@
    }

    pub closed spec fn rate(&self) -> u8 {
        self.frame_rate
    }

    /// The frame shown now.
    pub closed spec fn frame(&self) -> int {
        self.current_frame as int
    }

    /// When the frame last changed, in microseconds.
    pub closed spec fn changed_at(&self) -> u64 {
        self.last_frame_us
    }

    /// An animation at its first frame, started at `now_us`.
    pub fn new(name: String, frame_rate: u8, textures: Vec<String>, now_us: u64) -> (r: Self)
        ensures
            r.name_view() == name@,
            r.frames() == textures@,
            r.rate() == frame_rate,
            r.frame() == 0,
            r.changed_at() == now_us,
    {
        Animation { name, textures, frame_rate, current_frame: 0, last_frame_us: now_us }
    }

    pub fn name(&self) -> (r: &String)
        ensures
            r@ == self.name_view(),
    {
        &self.name
    }

    /// Returns the texture path of the frame to show at `now_us` (the frame
    /// as it stands), and moves on to the next frame, looping, when one is
    /// due. `None` for an animation without frames, or whose frame is out of
    /// range.
    pub fn advance(&mut self, now_us: u64) -> (r: Option<String>)
        ensures
            final(self).name_view() == old(self).name_view(),
            final(self).frames() == old(self).frames(),
            final(self).rate() == old(self).rate(),
            old(self).frame() < old(self).frames().len() ==> {
                &&& r == Some(old(self).frames()[old(self).frame()])
                &&& if frame_due(old(self).changed_at(), now_us, old(self).rate()) {
                    &&& final(self).changed_at() == now_us
                    &&& final(self).frame() == (old(self).frame() + 1) % (old(self).frames().len() as int)
                } else {
                    &&& final(self).changed_at() == old(self).changed_at()
                    &&& final(self).frame() == old(self).frame()
                }
            },
            old(self).frame() >= old(self).frames().len() ==> r is None && *final(self) == *old(self),
    {
        if self.current_frame >= self.textures.len() {
            return None;
        }
        let shown = self.textures[self.current_frame].clone();
        if self.frame_rate > 0 && now_us > self.last_frame_us && now_us - self.last_frame_us > 1_000_000
            / (self.frame_rate as u64) {
            self.last_frame_us = now_us;
            if self.current_frame == self.textures.len() - 1 {
                proof {
                    lemma_mod_self_0(self.textures.len() as int);
                }
                self.current_frame = 0;
            } else {
                proof {
                    lemma_small_mod((self.current_frame + 1) as nat, self.textures.len() as nat);
                }
                self.current_frame = self.current_frame + 1;
            }
        }
        Some(shown)
    }
}

} // verus!
