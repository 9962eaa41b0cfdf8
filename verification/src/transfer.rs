//! The deadline-bound transfer loop, as a state machine.
//!
//! One loop moves bytes over one open connection. The surrounding task
//! performs the blocking calls; the state machine decides what to do next
//! ([`TransferLoop::next_action`]) and folds each observed outcome into the
//! running byte count ([`TransferLoop::record`]). The deadline is polled
//! before each blocking write or read, never signalled mid-call: a single
//! oversized blocking call may overrun the nominal deadline by one buffer's
//! worth of latency, which is accepted.
//!
//! Write failures, read failures and end-of-stream all end the one loop
//! quietly: the bytes counted so far still stand, and nothing escalates to
//! sibling connections.

use vstd::prelude::*;

use crate::Direction;

verus! {

/// The observed outcome of one blocking call on the connection.
#[derive(Copy, Clone, Debug)]
pub enum TransferEvent {
    /// A write of `n` bytes completed.
    Wrote { n: usize },
    /// A write failed.
    WriteFailed,
    /// A read returned `n` bytes; zero means the peer closed the stream.
    Read { n: usize },
    /// A read failed.
    ReadFailed,
}

/// What the loop should do next: issue a write, issue a read, or stop and
/// report its result.
#[derive(Copy, Clone, Debug, PartialEq, Eq, Structural)]
pub enum TransferAction {
    Write,
    Read,
    Stop,
}

/// The state of one connection's transfer loop.
#[derive(Copy, Clone, Debug, PartialEq, Eq, Structural)]
pub struct TransferLoop {
    /// The direction this side of the connection runs.
    pub dir: Direction,
    /// Bytes moved so far, writes and reads of this connection together.
    pub bytes: u64,
    /// The loop ended: a failure, or end of stream.
    pub finished: bool,
    /// In a bidirectional run: a send completed and the matching receive
    /// has not happened yet.
    pub awaiting_read: bool,
}

/// The loop state on entry: nothing transferred, and nothing to do at all
/// for `Quit`, which never carries data.
pub open spec fn spec_new_loop(dir: Direction) -> TransferLoop {
    TransferLoop { dir, bytes: 0, finished: dir == Direction::Quit, awaiting_read: false }
}

/// How many bytes `ev` contributes to the running count of a loop running
/// in `dir`. Successful writes and non-empty reads count, in the directions
/// that perform them; everything else contributes nothing.
pub open spec fn event_bytes(dir: Direction, ev: TransferEvent) -> int {
    match dir {
        Direction::Upload => match ev {
            TransferEvent::Wrote { n } => n as int,
            _ => 0,
        },
        Direction::Download => match ev {
            TransferEvent::Read { n } => n as int,
            _ => 0,
        },
        Direction::Bidirectional => match ev {
            TransferEvent::Wrote { n } => n as int,
            TransferEvent::Read { n } => n as int,
            _ => 0,
        },
        Direction::Quit => 0,
    }
}

/// Whether `ev` ends the loop: a failed write (Upload, Bidirectional), a
/// failed read or end-of-stream (Download, Bidirectional).
pub open spec fn event_finishes(dir: Direction, ev: TransferEvent) -> bool {
    match dir {
        Direction::Upload => ev is WriteFailed,
        Direction::Download => ev matches TransferEvent::Read { n } && n == 0 || ev is ReadFailed,
        Direction::Bidirectional => ev is WriteFailed || (ev matches TransferEvent::Read { n }
            && n == 0) || ev is ReadFailed,
        Direction::Quit => false,
    }
}

/// The full transition: count the event's bytes, note whether it ended the
/// loop, and track the send-then-receive alternation of a bidirectional
/// run. Events a direction never observes leave the state unchanged.
pub open spec fn spec_step(s: TransferLoop, ev: TransferEvent) -> TransferLoop {
    TransferLoop {
        dir: s.dir,
        bytes: (s.bytes + event_bytes(s.dir, ev)) as u64,
        finished: s.finished || event_finishes(s.dir, ev),
        awaiting_read: if s.dir == Direction::Bidirectional {
            match ev {
                TransferEvent::Wrote { n } => true,
                TransferEvent::Read { n } => false,
                _ => s.awaiting_read,
            }
        } else {
            s.awaiting_read
        },
    }
}

/// What an unfinished loop does next. The deadline is consulted at the top
/// of the write path (Upload, Download) and before each new send-receive
/// pair (Bidirectional); a receive that matches a completed send is still
/// attempted after the deadline.
pub open spec fn spec_next_action(s: TransferLoop, deadline_passed: bool) -> TransferAction {
    if s.finished {
        TransferAction::Stop
    } else {
        match s.dir {
            Direction::Upload => if deadline_passed {
                TransferAction::Stop
            } else {
                TransferAction::Write
            },
            Direction::Download => if deadline_passed {
                TransferAction::Stop
            } else {
                TransferAction::Read
            },
            Direction::Bidirectional => if s.awaiting_read {
                TransferAction::Read
            } else if deadline_passed {
                TransferAction::Stop
            } else {
                TransferAction::Write
            },
            Direction::Quit => TransferAction::Stop,
        }
    }
}

impl TransferLoop {
    /// A fresh loop for one connection running in `dir`.
    pub fn new(dir: Direction) -> (r: TransferLoop)
        ensures
            r == spec_new_loop(dir),
    {
        TransferLoop {
            dir,
            bytes: 0,
            finished: match dir {
                Direction::Quit => true,
                _ => false,
            },
            awaiting_read: false,
        }
    }

    /// What to do next, given whether the deadline has passed.
    pub fn next_action(&self, deadline_passed: bool) -> (r: TransferAction)
        ensures
            r == spec_next_action(*self, deadline_passed),
    {
        if self.finished {
            TransferAction::Stop
        } else {
            match self.dir {
                Direction::Upload => if deadline_passed {
                    TransferAction::Stop
                } else {
                    TransferAction::Write
                },
                Direction::Download => if deadline_passed {
                    TransferAction::Stop
                } else {
                    TransferAction::Read
                },
                Direction::Bidirectional => if self.awaiting_read {
                    TransferAction::Read
                } else if deadline_passed {
                    TransferAction::Stop
                } else {
                    TransferAction::Write
                },
                Direction::Quit => TransferAction::Stop,
            }
        }
    }

    /// Fold the outcome of one blocking call into the loop state.
    pub fn record(&mut self, ev: TransferEvent)
        requires
            !old(self).finished,
            old(self).bytes + event_bytes(old(self).dir, ev) <= u64::MAX,
        ensures
            *final (self) == spec_step(*old(self), ev),
            final (self).bytes == old(self).bytes + event_bytes(old(self).dir, ev),
            final (self).dir == old(self).dir,
    {
        match ev {
            TransferEvent::Wrote { n } => {
                match self.dir {
                    Direction::Upload | Direction::Bidirectional => {
                        self.bytes = self.bytes + n as u64;
                    },
                    _ => {},
                }
                if self.dir == Direction::Bidirectional {
                    self.awaiting_read = true;
                }
            },
            TransferEvent::WriteFailed => {
                match self.dir {
                    Direction::Upload | Direction::Bidirectional => {
                        self.finished = true;
                    },
                    _ => {},
                }
            },
            TransferEvent::Read { n } => {
                match self.dir {
                    Direction::Download | Direction::Bidirectional => {
                        self.bytes = self.bytes + n as u64;
                        if n == 0 {
                            self.finished = true;
                        }
                    },
                    _ => {},
                }
                if self.dir == Direction::Bidirectional {
                    self.awaiting_read = false;
                }
            },
            TransferEvent::ReadFailed => {
                match self.dir {
                    Direction::Download | Direction::Bidirectional => {
                        self.finished = true;
                    },
                    _ => {},
                }
            },
        }
    }
}

/// The loop state after observing `evs` in order, from `init`.
pub open spec fn run_events(init: TransferLoop, evs: Seq<TransferEvent>) -> TransferLoop
    decreases evs.len(),
{
    if evs.len() == 0 {
        init
    } else {
        spec_step(run_events(init, evs.drop_last()), evs.last())
    }
}

/// The bytes a whole event sequence contributes to a loop running in `dir`.
pub open spec fn events_bytes(dir: Direction, evs: Seq<TransferEvent>) -> int
    decreases evs.len(),
{
    if evs.len() == 0 {
        0
    } else {
        events_bytes(dir, evs.drop_last()) + event_bytes(dir, evs.last())
    }
}

pub proof fn lemma_events_bytes_nonneg(dir: Direction, evs: Seq<TransferEvent>)
    ensures
        events_bytes(dir, evs) >= 0,
    decreases evs.len(),
{
    if evs.len() > 0 {
        lemma_events_bytes_nonneg(dir, evs.drop_last());
    }
}

/// A transfer loop counts exactly the bytes its events moved: after any
/// event sequence the count is the initial count plus each event's
/// contribution, whatever order failures and successes arrive in.
pub proof fn lemma_run_events_bytes(init: TransferLoop, evs: Seq<TransferEvent>)
    requires
        init.bytes + events_bytes(init.dir, evs) <= u64::MAX,
    ensures
        run_events(init, evs).dir == init.dir,
        run_events(init, evs).bytes == init.bytes + events_bytes(init.dir, evs),
    decreases evs.len(),
{
    if evs.len() > 0 {
        lemma_events_bytes_nonneg(init.dir, evs.drop_last());
        lemma_run_events_bytes(init, evs.drop_last());
    }
}

/// The write events of a client that sent blocks of the given sizes.
pub open spec fn wrote_events(sizes: Seq<usize>) -> Seq<TransferEvent> {
    Seq::new(sizes.len(), |i: int| TransferEvent::Wrote { n: sizes[i] })
}

/// The read events of a server that received blocks of the given sizes.
pub open spec fn read_events(sizes: Seq<usize>) -> Seq<TransferEvent> {
    Seq::new(sizes.len(), |i: int| TransferEvent::Read { n: sizes[i] })
}

/// The sum of a sequence of block sizes.
pub open spec fn sizes_sum(sizes: Seq<usize>) -> int
    decreases sizes.len(),
{
    if sizes.len() == 0 {
        0
    } else {
        sizes_sum(sizes.drop_last()) + sizes.last()
    }
}

/// Both sides of an upload observe the same volume: a sender that wrote
/// blocks of the given sizes and a receiver that read exactly those blocks
/// count the same number of bytes, namely their sum.
pub proof fn lemma_upload_both_sides(sizes: Seq<usize>)
    ensures
        events_bytes(Direction::Upload, wrote_events(sizes)) == sizes_sum(sizes),
        events_bytes(Direction::Download, read_events(sizes)) == sizes_sum(sizes),
    decreases sizes.len(),
{
    if sizes.len() > 0 {
        lemma_upload_both_sides(sizes.drop_last());
        assert(wrote_events(sizes).drop_last() =~= wrote_events(sizes.drop_last()));
        assert(read_events(sizes).drop_last() =~= read_events(sizes.drop_last()));
    }
}

/// One full send-then-receive round of a bidirectional loop, with the whole
/// block of `b` bytes echoed back, adds `2 * b` to the count.
pub proof fn lemma_bidirectional_round(s: TransferLoop, b: usize)
    requires
        s.dir == Direction::Bidirectional,
        s.bytes + 2 * b <= u64::MAX,
    ensures
        run_events(s, seq![TransferEvent::Wrote { n: b }, TransferEvent::Read { n: b }]).bytes
            == s.bytes + 2 * b,
{
    let evs = seq![TransferEvent::Wrote { n: b }, TransferEvent::Read { n: b }];
    let one = evs.drop_last();
    assert(one =~= seq![TransferEvent::Wrote { n: b }]);
    assert(one.drop_last() =~= Seq::<TransferEvent>::empty());
    assert(run_events(s, one.drop_last()) == s);
    assert(run_events(s, one) == spec_step(s, TransferEvent::Wrote { n: b }));
    assert(run_events(s, evs) == spec_step(
        spec_step(s, TransferEvent::Wrote { n: b }),
        TransferEvent::Read { n: b },
    ));
}

} // verus!
