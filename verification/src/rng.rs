//! The injectable source of random draws.
//!
//! The generator decides whether each candidate direction spawns a sub-branch
//! by drawing one byte per candidate. The source is passed explicitly: an
//! ambient source draws fresh uniform bytes from the process-wide generator,
//! while a scripted source replays a fixed byte sequence (and reads 0 once the
//! script is exhausted), which makes generation fully reproducible.

use vstd::prelude::*;

verus! {

/// The first draw a stream of scripted bytes yields: its head, or 0 once the
/// stream is exhausted.
pub open spec fn first_draw(s: Seq<u8>) -> u8 {
    if s.len() > 0 {
        s[0]
    } else {
        0
    }
}

/// What is left of a stream of scripted bytes after one draw.
pub open spec fn rest_draws(s: Seq<u8>) -> Seq<u8> {
    if s.len() > 0 {
        s.skip(1)
    } else {
        s
    }
}

/// Relies on `random_number::random_inclusively(u8::MIN, u8::MAX)`: one
/// uniformly distributed byte from a thread-local generator. The bounds are in
/// order, so the call cannot panic; nothing can be promised of the value
/// itself.
#[verifier::external_body]
fn ambient_u8() -> u8 {
    random_number::random_inclusively(u8::MIN, u8::MAX)
}

/// A source of random bytes: either the ambient process-wide generator, or a
/// fixed script replayed deterministically.
pub struct RandomSource {
    ambient: bool,
    draws: Vec<u8>,
    used: usize,
}

impl RandomSource {
    /// Internal consistency: the replay position never passes the script end.
    pub closed spec fn inv(self) -> bool {
        self.used <= self.draws@.len()
    }

    /// Whether this source replays a fixed script.
    pub closed spec fn is_scripted(self) -> bool {
        !self.ambient
    }

    /// The scripted bytes not yet drawn. Meaningful only for a scripted
    /// source.
    pub closed spec fn remaining(self) -> Seq<u8> {
        self.draws@.skip(self.used as int)
    }

    /// A source that draws fresh uniform bytes from the process-wide
    /// generator.
    pub fn ambient() -> (r: Self)
        ensures
            r.inv(),
            !r.is_scripted(),
    {
        Self { ambient: true, draws: Vec::new(), used: 0 }
    }

    /// A source that replays `draws` in order and yields 0 once they run out.
    pub fn scripted(draws: Vec<u8>) -> (r: Self)
        ensures
            r.inv(),
            r.is_scripted(),
            r.remaining() == draws@,
    {
        let r = Self { ambient: false, draws: draws, used: 0 };
        proof {
            assert(r.remaining() =~= r.draws@);
        }
        r
    }

    /// Draw one byte.
    pub fn next_u8(&mut self) -> (n: u8)
        requires
            old(self).inv(),
        ensures
            final(self).inv(),
            final(self).is_scripted() == old(self).is_scripted(),
            old(self).is_scripted() ==> n == first_draw(old(self).remaining())
                && final(self).remaining() == rest_draws(old(self).remaining()),
            !old(self).is_scripted() ==> *final(self) == *old(self),
    {
        if self.ambient {
            ambient_u8()
        } else if self.used < self.draws.len() {
            let n = self.draws[self.used];
            self.used = self.used + 1;
            proof {
                assert(self.remaining() =~= rest_draws(old(self).remaining()));
            }
            n
        } else {
            proof {
                assert(self.remaining() =~= rest_draws(old(self).remaining()));
            }
            0
        }
    }
}

} // verus!
