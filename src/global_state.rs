//! The registry: one FIFO channel per registered report kind.
use vstd::prelude::*;
use crate::report::{ReportItem, ReportKind};

verus! {

/// What can go wrong in the pipeline.
#[derive(Clone, Copy, Debug, PartialEq, Eq, Structural)]
pub enum PipelineError {
    /// The sink of a kind could not be created; the kind stays unregistered.
    SinkCreationFailed,
    /// A kind was submitted to before it was registered.
    UnregisteredKind,
    /// The channel behind a handle was closed by a shutdown.
    ChannelClosed,
    /// A kind was registered while a channel of it was still open.
    AlreadyRegistered,
    /// One item could not be turned into a record.
    SerializationFailed,
    /// Not every consumer finished draining in the time given.
    ShutdownIncomplete,
}

/// A capability to enqueue items of one kind into one channel.
#[derive(Clone, Copy, Debug, PartialEq, Eq, Structural)]
pub struct Outbound {
    pub kind: ReportKind,
    pub slot: usize,
}

/// What a consumer finds when it asks its channel for the next item.
#[derive(Debug)]
pub enum Delivery {
    /// The oldest pending item of an open channel.
    Queued(ReportItem),
    /// The oldest pending item of a closed channel.
    Draining(ReportItem),
    /// The channel is open and holds nothing yet.
    Empty,
    /// The channel is closed and fully drained.
    Closed,
}

/// The state of one channel, as the contracts see it.
pub struct ChannelView {
    pub kind: ReportKind,
    pub open: bool,
    pub pending: Seq<ReportItem>,
}

struct Channel {
    kind: ReportKind,
    open: bool,
    pending: Vec<ReportItem>,
}

impl Channel {
    spec fn view(&self) -> ChannelView {
        ChannelView { kind: self.kind, open: self.open, pending: self.pending@ }
    }
}

/// The registry of report kinds. A channel keeps its slot after it is
/// closed, so that a handle to it keeps resolving to that closed channel.
pub struct GlobalState {
    channels: Vec<Channel>,
}

/// Some channel of `kind` is open.
pub open spec fn is_registered(chs: Seq<ChannelView>, kind: ReportKind) -> bool {
    exists|i: int| 0 <= i < chs.len() && chs[i].open && #[trigger] chs[i].kind == kind
}

/// The handle a lookup of `kind` yields: the open channel of that kind.
pub open spec fn registered_handle(chs: Seq<ChannelView>, kind: ReportKind) -> Option<Outbound> {
    if is_registered(chs, kind) {
        let i = choose|i: int| 0 <= i < chs.len() && chs[i].open && #[trigger] chs[i].kind == kind;
        Some(Outbound { kind, slot: i as usize })
    } else {
        None
    }
}

/// `h` names an open channel of its own kind.
pub open spec fn accepts(chs: Seq<ChannelView>, h: Outbound) -> bool {
    &&& h.slot < chs.len()
    &&& chs[h.slot as int].open
    &&& chs[h.slot as int].kind == h.kind
}

/// At most one open channel per kind, and every pending item has its
/// channel's kind.
pub open spec fn channels_wf(chs: Seq<ChannelView>) -> bool {
    &&& forall|i: int, j: int|
        0 <= i < chs.len() && 0 <= j < chs.len() && chs[i].open && chs[j].open
            && #[trigger] chs[i].kind == #[trigger] chs[j].kind ==> i == j
    &&& forall|i: int, k: int|
        0 <= i < chs.len() && 0 <= k < chs[i].pending.len() ==> (#[trigger] chs[i].pending[k]).spec_kind()
            == chs[i].kind
}

/// The channels after registering `kind`.
pub open spec fn after_register(chs: Seq<ChannelView>, kind: ReportKind) -> Seq<ChannelView> {
    if is_registered(chs, kind) {
        chs
    } else {
        chs.push(ChannelView { kind, open: true, pending: seq![] })
    }
}

/// The channels after submitting `item` through `h`.
pub open spec fn after_submit(chs: Seq<ChannelView>, h: Outbound, item: ReportItem) -> Seq<
    ChannelView,
> {
    if accepts(chs, h) {
        let c = chs[h.slot as int];
        chs.update(h.slot as int, ChannelView { pending: c.pending.push(item), ..c })
    } else {
        chs
    }
}

/// The outcome of submitting through `h`.
pub open spec fn submit_result(chs: Seq<ChannelView>, h: Outbound) -> Result<(), PipelineError> {
    if accepts(chs, h) {
        Ok(())
    } else {
        Err(PipelineError::ChannelClosed)
    }
}

/// The channels after a shutdown: every channel closed, nothing dropped.
pub open spec fn after_shutdown(chs: Seq<ChannelView>) -> Seq<ChannelView> {
    Seq::new(chs.len(), |i: int| ChannelView { open: false, ..chs[i] })
}

/// What a consumer of channel `c` is handed next.
pub open spec fn next_delivery(c: ChannelView) -> Delivery {
    if c.pending.len() > 0 {
        if c.open {
            Delivery::Queued(c.pending[0])
        } else {
            Delivery::Draining(c.pending[0])
        }
    } else if c.open {
        Delivery::Empty
    } else {
        Delivery::Closed
    }
}

/// The channels after the consumer of `slot` took its next delivery.
pub open spec fn after_take(chs: Seq<ChannelView>, slot: int) -> Seq<ChannelView> {
    let c = chs[slot];
    if c.pending.len() > 0 {
        chs.update(slot, ChannelView { pending: c.pending.drop_first(), ..c })
    } else {
        chs
    }
}

impl View for GlobalState {
    type V = Seq<ChannelView>;

    closed spec fn view(&self) -> Seq<ChannelView> {
        self.channels@.map_values(|c: Channel| c.view())
    }
}

impl GlobalState {
    /// The channels satisfy `channels_wf`, and every slot fits a `usize`.
    pub open spec fn wf(&self) -> bool {
        &&& channels_wf(self@)
        &&& self@.len() <= usize::MAX
    }

    /// An empty registry.
    pub fn new() -> (r: Self)
        ensures
            r.wf(),
            r@ == Seq::<ChannelView>::empty(),
    {
        let r = GlobalState { channels: Vec::new() };
        assert(r@ =~= Seq::<ChannelView>::empty());
        r
    }

    /// The number of channels ever opened, closed ones included.
    pub fn channel_count(&self) -> (r: usize)
        ensures
            r == self@.len(),
    {
        self.channels.len()
    }

    fn find_open(&self, kind: ReportKind) -> (r: Option<usize>)
        requires
            self.wf(),
        ensures
            r is None <==> !is_registered(self@, kind),
            r matches Some(s) ==> s < self@.len() && self@[s as int].open && self@[s as int].kind
                == kind,
    {
        let mut i: usize = 0;
        while i < self.channels.len()
            invariant
                i <= self.channels@.len(),
                self@.len() == self.channels@.len(),
                forall|j: int| 0 <= j < i ==> !(self@[j].open && self@[j].kind == kind),
            decreases self.channels@.len() - i,
        {
            if self.channels[i].open && self.channels[i].kind == kind {
                return Some(i);
            }
            i = i + 1;
        }
        None
    }

    /// The handle of the open channel of `kind`, if the kind is registered.
    pub fn get_report_sender(&self, kind: ReportKind) -> (r: Option<Outbound>)
        requires
            self.wf(),
        ensures
            r == registered_handle(self@, kind),
            r matches Some(h) ==> h.kind == kind && accepts(self@, h),
    {
        match self.find_open(kind) {
            Some(slot) => Some(Outbound { kind, slot }),
            None => None,
        }
    }

    /// No kind is registered.
    pub fn report_senders_is_empty(&self) -> (r: bool)
        requires
            self.wf(),
        ensures
            r <==> forall|k: ReportKind| !is_registered(self@, k),
    {
        let a = self.find_open(ReportKind::Incidence);
        let b = self.find_open(ReportKind::Death);
        proof {
            assert forall|k: ReportKind| a is None && b is None implies !is_registered(self@, k) by {
                match k {
                    ReportKind::Incidence => {},
                    ReportKind::Death => {},
                }
            }
        }
        a.is_none() && b.is_none()
    }

    /// Registers `kind` with a fresh open channel and returns its handle. A
    /// kind whose channel is still open is refused.
    pub fn setup_report(&mut self, kind: ReportKind) -> (r: Result<Outbound, PipelineError>)
        requires
            old(self).wf(),
            old(self)@.len() < usize::MAX,
        ensures
            final(self).wf(),
            final(self)@ == after_register(old(self)@, kind),
            is_registered(old(self)@, kind) ==> r == Err::<Outbound, PipelineError>(
                PipelineError::AlreadyRegistered,
            ),
            !is_registered(old(self)@, kind) ==> r == Ok::<Outbound, PipelineError>(
                (Outbound { kind, slot: old(self)@.len() as usize }),
            ),
            r matches Ok(h) ==> accepts(final(self)@, h) && is_registered(final(self)@, kind),
    {
        if self.find_open(kind).is_some() {
            return Err(PipelineError::AlreadyRegistered);
        }
        let slot = self.channels.len();
        self.channels.push(Channel { kind, open: true, pending: Vec::new() });
        proof {
            let o = old(self)@;
            let n = self@;
            assert(n =~= after_register(o, kind));
            assert(n[slot as int].kind == kind);
        }
        Ok(Outbound { kind, slot })
    }

    /// Registers `kind`, as `setup_report` does.
    pub fn add_report(&mut self, kind: ReportKind) -> (r: Result<Outbound, PipelineError>)
        requires
            old(self).wf(),
            old(self)@.len() < usize::MAX,
        ensures
            final(self).wf(),
            final(self)@ == after_register(old(self)@, kind),
            is_registered(old(self)@, kind) ==> r == Err::<Outbound, PipelineError>(
                PipelineError::AlreadyRegistered,
            ),
            !is_registered(old(self)@, kind) ==> r == Ok::<Outbound, PipelineError>(
                (Outbound { kind, slot: old(self)@.len() as usize }),
            ),
            r matches Ok(h) ==> accepts(final(self)@, h) && is_registered(final(self)@, kind),
    {
        self.setup_report(kind)
    }
    /// Enqueues `item` through `h`: appended to that channel's pending items
    /// if the channel is open, refused with `ChannelClosed` if it is not. No
    /// other channel is touched.
    pub fn submit(&mut self, h: Outbound, item: ReportItem) -> (r: Result<(), PipelineError>)
        requires
            old(self).wf(),
            item.spec_kind() == h.kind,
        ensures
            final(self).wf(),
            final(self)@ == after_submit(old(self)@, h, item),
            r == submit_result(old(self)@, h),
    {
        if h.slot >= self.channels.len() || !self.channels[h.slot].open || self.channels[h.slot].kind
            != h.kind {
            return Err(PipelineError::ChannelClosed);
        }
        let ghost o = self@;
        let mut ch = self.channels.remove(h.slot);
        ch.pending.push(item);
        self.channels.insert(h.slot, ch);
        proof {
            assert(self@ =~= after_submit(o, h, item));
        }
        Ok(())
    }

    /// Hands the consumer of `slot` its next delivery, removing a delivered
    /// item from the channel.
    pub fn take_next(&mut self, slot: usize) -> (r: Delivery)
        requires
            old(self).wf(),
            slot < old(self)@.len(),
        ensures
            final(self).wf(),
            final(self)@ == after_take(old(self)@, slot as int),
            r == next_delivery(old(self)@[slot as int]),
            r matches Delivery::Queued(x) ==> x.spec_kind() == old(self)@[slot as int].kind,
            r matches Delivery::Draining(x) ==> x.spec_kind() == old(self)@[slot as int].kind,
    {
        let ghost o = self@;
        if self.channels[slot].pending.len() == 0 {
            if self.channels[slot].open {
                return Delivery::Empty;
            } else {
                return Delivery::Closed;
            }
        }
        let mut ch = self.channels.remove(slot);
        let item = ch.pending.remove(0);
        let open = ch.open;
        self.channels.insert(slot, ch);
        proof {
            assert(self@ =~= after_take(o, slot as int));
            assert(o[slot as int].pending[0].spec_kind() == o[slot as int].kind);
        }
        if open {
            Delivery::Queued(item)
        } else {
            Delivery::Draining(item)
        }
    }

    /// Closes every channel. Pending items stay, for their consumers to
    /// drain; later submissions through any handle are refused.
    pub fn shutdown(&mut self)
        requires
            old(self).wf(),
        ensures
            final(self).wf(),
            final(self)@ == after_shutdown(old(self)@),
    {
        let ghost o = self@;
        let mut i: usize = 0;
        while i < self.channels.len()
            invariant
                i <= self.channels@.len(),
                self@.len() == o.len(),
                forall|j: int| 0 <= j < i ==> self@[j] == (ChannelView { open: false, ..o[j] }),
                forall|j: int| i <= j < o.len() ==> self@[j] == o[j],
            decreases self.channels@.len() - i,
        {
            let ghost prev = self@;
            let mut ch = self.channels.remove(i);
            ch.open = false;
            self.channels.insert(i, ch);
            assert(self@ =~= prev.update(i as int, ChannelView { open: false, ..o[i as int] }));
            i = i + 1;
        }
        assert(self@ =~= after_shutdown(o));
    }
}

} // verus!
