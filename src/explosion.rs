//! The short-lived flash left where an enemy dies.
use vstd::prelude::*;

verus! {

/// Progress at which an explosion is over, in thousandths.
pub const PROGRESS_END: u32 = 1000;

/// An explosion that grows and fades as its progress runs from 0 to 1000.
#[derive(Clone, Copy, Debug, PartialEq, Eq, Structural)]
pub struct Explosion {
    /// Thousandths of the way through.
    pub progress: u32,
    /// Progress gained per second, in thousandths.
    pub speed: u32,
    /// Growth per unit of progress, in thousandths.
    pub scale: u32,
}

impl Explosion {
    /// The progress after `delta_ms` more milliseconds, held at `PROGRESS_END`.
    pub open spec fn progressed(self, delta_ms: u64) -> u32 {
        let p = self.progress + self.speed * delta_ms / 1000;
        if p >= PROGRESS_END {
            PROGRESS_END
        } else {
            p as u32
        }
    }

    /// The explosion spawned when an enemy dies.
    pub fn new() -> (r: Explosion)
        ensures
            r == (Explosion { progress: 0, speed: 3000, scale: 33 }),
    {
        Explosion { progress: 0, speed: 3000, scale: 33 }
    }

    /// Advances the explosion by `delta_ms` milliseconds. Returns whether it is
    /// over and should be removed.
    pub fn advance(&mut self, delta_ms: u64) -> (done: bool)
        ensures
            *final(self) == (Explosion { progress: old(self).progressed(delta_ms), ..*old(self) }),
            done == (final(self).progress >= PROGRESS_END),
    {
        assert(self.speed * delta_ms <= 4_294_967_295 * 18_446_744_073_709_551_615) by (nonlinear_arith)
            requires self.speed <= 4_294_967_295u32, delta_ms <= 18_446_744_073_709_551_615u64;
        let gained: u128 = self.speed as u128 * delta_ms as u128 / 1000;
        let p: u128 = self.progress as u128 + gained;
        if p >= PROGRESS_END as u128 {
            self.progress = PROGRESS_END;
            true
        } else {
            self.progress = p as u32;
            false
        }
    }

    /// The opacity, in thousandths: it fades out as progress runs up.
    pub fn alpha(&self) -> (r: u32)
        requires
            self.progress <= PROGRESS_END,
        ensures
            r == PROGRESS_END - self.progress,
    {
        PROGRESS_END - self.progress
    }

    /// The factor the explosion grows by this tick, in thousandths.
    pub fn growth(&self) -> (r: u64)
        requires
            self.progress <= PROGRESS_END,
        ensures
            r == 1000 + self.progress * self.scale / 1000,
    {
        assert(self.progress * self.scale <= 1000 * 4_294_967_295) by (nonlinear_arith)
            requires self.progress <= 1000, self.scale <= 4_294_967_295u32;
        1000 + self.progress as u64 * self.scale as u64 / 1000
    }
}

} // verus!
