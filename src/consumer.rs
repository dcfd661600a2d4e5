//! The consumer of one kind's channel: turns items into sink records.
use vstd::prelude::*;
use crate::global_state::{ChannelView, Delivery, GlobalState, PipelineError};
use crate::record::{csv_record, encode_record};
use crate::report::{header, header_fields, record_fields, ReportItem, ReportKind};

verus! {

/// The life cycle of a consumer.
#[derive(Clone, Copy, Debug, PartialEq, Eq, Structural)]
pub enum ConsumerState {
    /// Its channel is open; it waits for items.
    Running,
    /// Its channel is closed; it writes what is left.
    Draining,
    /// Its channel is closed and empty; it has stopped.
    Terminated,
}

/// What the consumer asks its runner to do next.
#[derive(Debug)]
pub enum Action {
    /// Append these bytes to the sink, then report the outcome.
    Write(Vec<u8>),
    /// Wait until the channel holds an item or is closed.
    Wait,
    /// The channel is drained: flush the sink and stop.
    Stop,
}

/// The bytes written for an item: the column names come first in a sink
/// that holds no record yet.
pub open spec fn record_bytes(kind: ReportKind, header_written: bool, item: ReportItem) -> Seq<u8> {
    if header_written {
        csv_record(record_fields(item))
    } else {
        csv_record(header_fields(kind)) + csv_record(record_fields(item))
    }
}

/// The bytes written for `items`, one after another, when no write fails:
/// the column names come first unless the sink already held a record.
pub open spec fn records(kind: ReportKind, header_written: bool, items: Seq<ReportItem>) -> Seq<u8>
    decreases items.len(),
{
    if items.len() == 0 {
        seq![]
    } else {
        records(kind, header_written, items.drop_last()) + record_bytes(
            kind,
            header_written || items.len() > 1,
            items.last(),
        )
    }
}

/// The consumer of the channel of one kind.
pub struct Consumer {
    pub kind: ReportKind,
    pub state: ConsumerState,
    /// The sink already holds the column names.
    pub header_written: bool,
    /// Records written to the sink.
    pub written: u64,
    /// Items lost to a failed write: the consumer's count of
    /// `SerializationFailed` outcomes, kept for observers of the pipeline.
    pub failures: u64,
}

/// `n + 1`, held at the largest `u64`.
pub open spec fn bump(n: u64) -> u64 {
    if n < u64::MAX {
        (n + 1) as u64
    } else {
        n
    }
}

fn saturating_inc(n: u64) -> (r: u64)
    ensures
        r == bump(n),
{
    if n < u64::MAX {
        n + 1
    } else {
        n
    }
}

/// The outcome of a shutdown whose consumers ended in `states`: complete
/// once every consumer terminated, `ShutdownIncomplete` otherwise.
pub fn shutdown_outcome(states: &Vec<ConsumerState>) -> (r: Result<(), PipelineError>)
    ensures
        r is Ok <==> forall|i: int| 0 <= i < states@.len() ==> states@[i] == ConsumerState::Terminated,
        r is Err ==> r == Err::<(), PipelineError>(PipelineError::ShutdownIncomplete),
{
    let mut i: usize = 0;
    while i < states.len()
        invariant
            i <= states@.len(),
            forall|j: int| 0 <= j < i ==> states@[j] == ConsumerState::Terminated,
        decreases states@.len() - i,
    {
        if states[i] != ConsumerState::Terminated {
            return Err(PipelineError::ShutdownIncomplete);
        }
        i = i + 1;
    }
    Ok(())
}

impl Consumer {
    /// A running consumer whose sink is still empty.
    pub fn new(kind: ReportKind) -> (r: Consumer)
        ensures
            r == (Consumer {
                kind,
                state: ConsumerState::Running,
                header_written: false,
                written: 0,
                failures: 0,
            }),
    {
        Consumer { kind, state: ConsumerState::Running, header_written: false, written: 0, failures: 0 }
    }

    /// Frames an encoded item: `row` is the item's record, preceded by
    /// `head`, the record of the column names, while the sink holds no
    /// record.
    pub fn frame(&self, head: Vec<u8>, row: Vec<u8>) -> (r: Vec<u8>)
        ensures
            r@ == if self.header_written {
                row@
            } else {
                head@ + row@
            },
    {
        if self.header_written {
            row
        } else {
            let mut w = head;
            let mut b = row;
            w.append(&mut b);
            w
        }
    }

    /// Decides what to do with a delivery from the channel. An item is
    /// written as its CSV record, after the column names while the sink
    /// holds no record; a closed and drained channel stops the consumer.
    pub fn handle(&mut self, d: Delivery) -> (r: Action)
        requires
            old(self).state != ConsumerState::Terminated,
            d matches Delivery::Queued(x) ==> x.spec_kind() == old(self).kind,
            d matches Delivery::Draining(x) ==> x.spec_kind() == old(self).kind,
        ensures
            final(self).kind == old(self).kind,
            final(self).header_written == old(self).header_written,
            final(self).written == old(self).written,
            final(self).failures == old(self).failures,
            match d {
                Delivery::Queued(x) => final(self).state == old(self).state && (r matches Action::Write(
                    b,
                ) && b@ == record_bytes(old(self).kind, old(self).header_written, x)),
                Delivery::Draining(x) => final(self).state == ConsumerState::Draining && (
                r matches Action::Write(b) && b@ == record_bytes(
                    old(self).kind,
                    old(self).header_written,
                    x,
                )),
                Delivery::Empty => r == Action::Wait && final(self).state == old(self).state,
                Delivery::Closed => r == Action::Stop && final(self).state
                    == ConsumerState::Terminated,
            },
    {
        match d {
            Delivery::Queued(x) => Action::Write(self.encode(&x)),
            Delivery::Draining(x) => {
                self.state = ConsumerState::Draining;
                Action::Write(self.encode(&x))
            },
            Delivery::Empty => Action::Wait,
            Delivery::Closed => {
                self.state = ConsumerState::Terminated;
                Action::Stop
            },
        }
    }

    fn encode(&self, x: &ReportItem) -> (r: Vec<u8>)
        ensures
            r@ == record_bytes(self.kind, self.header_written, *x),
    {
        let row = encode_record(&x.fields());
        let head = if self.header_written {
            Vec::new()
        } else {
            encode_record(&header(self.kind))
        };
        self.frame(head, row)
    }

    /// Records the outcome of a write. A failed write loses that item only
    /// and is answered with `SerializationFailed`; the consumer goes on.
    pub fn write_done(&mut self, ok: bool) -> (r: Result<(), PipelineError>)
        ensures
            final(self).kind == old(self).kind,
            final(self).state == old(self).state,
            ok ==> r is Ok && final(self).header_written && final(self).written == bump(
                old(self).written,
            ) && final(self).failures == old(self).failures,
            !ok ==> r == Err::<(), PipelineError>(PipelineError::SerializationFailed)
                && final(self).header_written == old(self).header_written && final(self).written
                == old(self).written && final(self).failures == bump(old(self).failures),
    {
        if ok {
            self.header_written = true;
            self.written = saturating_inc(self.written);
            Ok(())
        } else {
            self.failures = saturating_inc(self.failures);
            Err(PipelineError::SerializationFailed)
        }
    }

    /// Writes every item pending in channel `slot` to the in-memory `sink`,
    /// oldest first, then answers `Wait` if the channel is still open and
    /// `Stop` if it is closed. The sink gains exactly the records of the
    /// pending items, in order.
    pub fn drain_into(&mut self, state: &mut GlobalState, slot: usize, sink: &mut Vec<u8>) -> (r: Action)
        requires
            old(state).wf(),
            slot < old(state)@.len(),
            old(state)@[slot as int].kind == old(self).kind,
            old(self).state != ConsumerState::Terminated,
        ensures
            final(state).wf(),
            final(state)@ == old(state)@.update(
                slot as int,
                ChannelView { pending: seq![], ..old(state)@[slot as int] },
            ),
            final(self).kind == old(self).kind,
            final(sink)@ == old(sink)@ + records(
                old(self).kind,
                old(self).header_written,
                old(state)@[slot as int].pending,
            ),
            final(self).failures == old(self).failures,
            final(self).header_written == (old(self).header_written || old(state)@[slot as int].pending.len() > 0),
            old(state)@[slot as int].open ==> r == Action::Wait && final(self).state == old(self).state,
            !old(state)@[slot as int].open ==> r == Action::Stop && final(self).state
                == ConsumerState::Terminated,
    {
        let ghost chs0 = state@;
        let ghost p = chs0[slot as int].pending;
        let ghost hw = self.header_written;
        let ghost mut i: int = 0;
        proof {
            assert(p.skip(0) =~= p);
            assert(chs0.update(slot as int, ChannelView { pending: p, ..chs0[slot as int] }) =~= chs0);
            assert(p.take(0) =~= Seq::<ReportItem>::empty());
            assert(sink@ =~= old(sink)@ + Seq::<u8>::empty());
        }
        loop
            invariant
                chs0 == old(state)@,
                p == chs0[slot as int].pending,
                hw == old(self).header_written,
                state.wf(),
                slot < state@.len(),
                state@.len() == chs0.len(),
                0 <= i <= p.len(),
                state@ == chs0.update(
                    slot as int,
                    ChannelView { pending: p.skip(i), ..chs0[slot as int] },
                ),
                self.kind == chs0[slot as int].kind,
                self.kind == old(self).kind,
                self.failures == old(self).failures,
                chs0[slot as int].open ==> self.state == old(self).state,
                self.state != ConsumerState::Terminated,
                self.header_written == (hw || i > 0),
                sink@ == old(sink)@ + records(self.kind, hw, p.take(i)),
            decreases p.len() - i,
        {
            let d = state.take_next(slot);
            proof {
                if p.len() > i {
                    assert(p.skip(i)[0] == p[i]);
                    assert(p.skip(i).drop_first() =~= p.skip(i + 1));
                    assert(state@ =~= chs0.update(
                        slot as int,
                        ChannelView { pending: p.skip(i + 1), ..chs0[slot as int] },
                    ));
                } else {
                    assert(i == p.len());
                    assert(p.take(i) =~= p);
                    assert(p.skip(i) =~= Seq::<ReportItem>::empty());
                    assert(state@ =~= chs0.update(
                        slot as int,
                        ChannelView { pending: seq![], ..chs0[slot as int] },
                    ));
                }
            }
            match self.handle(d) {
                Action::Write(b) => {
                    let mut b = b;
                    sink.append(&mut b);
                    let _ = self.write_done(true);
                    proof {
                        let q = p.take(i + 1);
                        assert(q.drop_last() =~= p.take(i));
                        assert(q.last() == p[i]);
                        i = i + 1;
                    }
                },
                Action::Wait => {
                    return Action::Wait;
                },
                Action::Stop => {
                    return Action::Stop;
                },
            }
        }
    }
}

} // verus!
