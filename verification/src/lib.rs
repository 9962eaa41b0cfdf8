//! Verified core of a point-to-point TCP throughput tester.
//!
//! The library models the logic of the tester: the line-oriented mode
//! negotiation, the deadline-bound transfer loop, aggregation of
//! per-connection results, the shutdown signal, and the derived
//! throughput statistics. The surrounding I/O (sockets, timers, files)
//! lives outside the library and drives these functions.

use vstd::prelude::*;

pub mod aggregate;
pub mod fmt_text;
pub mod protocol;
pub mod sizes;
pub mod stats;
pub mod transfer;

verus! {

/// Which side of a connection originates data.
///
/// `Upload`: the client sends, the server receives.
/// `Download`: the server sends, the client receives.
/// `Bidirectional`: both sides alternate send-then-receive.
/// `Quit`: a control signal that stops the server; never used for data.
#[derive(Copy, Clone, Debug, PartialEq, Eq, Structural)]
pub enum Direction {
    Upload,
    Download,
    Bidirectional,
    Quit,
}

impl Direction {
    /// A direction requires the client to announce a duration exactly when
    /// the server drives the clock: `Download` and `Bidirectional`.
    pub open spec fn spec_needs_duration(self) -> bool {
        self == Direction::Download || self == Direction::Bidirectional
    }

    /// Executable twin of [`Self::spec_needs_duration`].
    #[verifier::when_used_as_spec(spec_needs_duration)]
    pub fn needs_duration(self) -> (r: bool)
        ensures
            r == self.spec_needs_duration(),
    {
        match self {
            Direction::Download | Direction::Bidirectional => true,
            _ => false,
        }
    }
}

} // verus!
