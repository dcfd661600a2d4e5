//! What holds of the pipeline across calls.
use vstd::prelude::*;
use crate::consumer::{record_bytes, records};
use crate::context::{after_send, send_outcome, Context};
use crate::global_state::{
    accepts, after_shutdown, after_submit, after_take, channels_wf, is_registered, next_delivery,
    registered_handle, submit_result, ChannelView, Delivery, Outbound, PipelineError,
};
use crate::report::{ReportItem, ReportKind};

verus! {

/// The channels after submitting `items` through `h`, one after another.
pub open spec fn submit_all(chs: Seq<ChannelView>, h: Outbound, items: Seq<ReportItem>) -> Seq<
    ChannelView,
>
    decreases items.len(),
{
    if items.len() == 0 {
        chs
    } else {
        after_submit(submit_all(chs, h, items.drop_last()), h, items.last())
    }
}

/// The channels after the consumer of `slot` took `n` deliveries.
pub open spec fn after_takes(chs: Seq<ChannelView>, slot: int, n: nat) -> Seq<ChannelView>
    decreases n,
{
    if n == 0 {
        chs
    } else {
        after_take(after_takes(chs, slot, (n - 1) as nat), slot)
    }
}

/// The items the consumer of `slot` is handed in `n` deliveries, in order.
pub open spec fn taken(chs: Seq<ChannelView>, slot: int, n: nat) -> Seq<ReportItem>
    decreases n,
{
    if n == 0 {
        seq![]
    } else {
        let before = taken(chs, slot, (n - 1) as nat);
        match next_delivery(after_takes(chs, slot, (n - 1) as nat)[slot]) {
            Delivery::Queued(x) => before.push(x),
            Delivery::Draining(x) => before.push(x),
            _ => before,
        }
    }
}

proof fn lemma_submit_all(chs: Seq<ChannelView>, h: Outbound, items: Seq<ReportItem>)
    requires
        accepts(chs, h),
    ensures
        accepts(submit_all(chs, h, items), h),
        submit_all(chs, h, items).len() == chs.len(),
        submit_all(chs, h, items)[h.slot as int].pending == chs[h.slot as int].pending + items,
        submit_all(chs, h, items)[h.slot as int].open == chs[h.slot as int].open,
        submit_all(chs, h, items)[h.slot as int].kind == chs[h.slot as int].kind,
    decreases items.len(),
{
    if items.len() > 0 {
        lemma_submit_all(chs, h, items.drop_last());
        assert(chs[h.slot as int].pending + items =~= (chs[h.slot as int].pending
            + items.drop_last()).push(items.last()));
    }
}

proof fn lemma_takes(chs: Seq<ChannelView>, slot: int, n: nat)
    requires
        0 <= slot < chs.len(),
        n <= chs[slot].pending.len(),
    ensures
        after_takes(chs, slot, n).len() == chs.len(),
        after_takes(chs, slot, n)[slot].pending == chs[slot].pending.skip(n as int),
        after_takes(chs, slot, n)[slot].open == chs[slot].open,
        after_takes(chs, slot, n)[slot].kind == chs[slot].kind,
        taken(chs, slot, n) == chs[slot].pending.take(n as int),
    decreases n,
{
    if n > 0 {
        let m = (n - 1) as nat;
        lemma_takes(chs, slot, m);
        let p = chs[slot].pending;
        assert(p.skip(m as int).drop_first() =~= p.skip(n as int));
        assert(p.take(m as int).push(p.skip(m as int)[0]) =~= p.take(n as int));
    } else {
        assert(chs[slot].pending.skip(0) =~= chs[slot].pending);
        assert(chs[slot].pending.take(0) =~= Seq::<ReportItem>::empty());
    }
}

/// Items submitted through one handle are handed to the consumer of its
/// channel after what was already pending there, in submission order; a
/// consumer draining the channel into its sink therefore writes their
/// records in that order.
pub proof fn lemma_fifo_per_kind(chs: Seq<ChannelView>, h: Outbound, items: Seq<ReportItem>)
    requires
        accepts(chs, h),
    ensures
        submit_all(chs, h, items)[h.slot as int].pending == chs[h.slot as int].pending + items,
        ({
            let s = submit_all(chs, h, items);
            let n = (chs[h.slot as int].pending.len() + items.len()) as nat;
            taken(s, h.slot as int, n) == chs[h.slot as int].pending + items
        }),
{
    lemma_submit_all(chs, h, items);
    let s = submit_all(chs, h, items);
    let n = (chs[h.slot as int].pending.len() + items.len()) as nat;
    lemma_takes(s, h.slot as int, n);
    assert(s[h.slot as int].pending.take(n as int) =~= s[h.slot as int].pending);
}

/// Every item submitted before a shutdown is still handed to the consumer
/// after it, in order, and only then is the consumer told that its channel
/// is closed.
pub proof fn lemma_no_loss_on_drain(chs: Seq<ChannelView>, h: Outbound, items: Seq<ReportItem>)
    requires
        accepts(chs, h),
    ensures
        after_shutdown(submit_all(chs, h, items))[h.slot as int].pending == chs[h.slot as int].pending
            + items,
        ({
            let s = after_shutdown(submit_all(chs, h, items));
            let n = (chs[h.slot as int].pending.len() + items.len()) as nat;
            &&& taken(s, h.slot as int, n) == chs[h.slot as int].pending + items
            &&& next_delivery(after_takes(s, h.slot as int, n)[h.slot as int]) == Delivery::Closed
        }),
{
    lemma_submit_all(chs, h, items);
    let s = after_shutdown(submit_all(chs, h, items));
    let n = (chs[h.slot as int].pending.len() + items.len()) as nat;
    lemma_takes(s, h.slot as int, n);
    assert(s[h.slot as int].pending.take(n as int) =~= s[h.slot as int].pending);
    assert(s[h.slot as int].pending.skip(n as int) =~= Seq::<ReportItem>::empty());
}

/// A submission changes no channel of another kind.
pub proof fn lemma_kind_isolation(chs: Seq<ChannelView>, h: Outbound, item: ReportItem, j: int)
    requires
        0 <= j < chs.len(),
        chs[j].kind != h.kind,
    ensures
        after_submit(chs, h, item)[j] == chs[j],
{
}

/// Shutting down twice leaves the channels as shutting down once does.
pub proof fn lemma_shutdown_idempotent(chs: Seq<ChannelView>)
    ensures
        after_shutdown(after_shutdown(chs)) == after_shutdown(chs),
{
    assert(after_shutdown(after_shutdown(chs)) =~= after_shutdown(chs));
}

/// After a shutdown, every handle is refused with `ChannelClosed` and
/// enqueues nothing.
pub proof fn lemma_closed_after_shutdown(chs: Seq<ChannelView>, h: Outbound, item: ReportItem)
    ensures
        submit_result(after_shutdown(chs), h) == Err::<(), PipelineError>(PipelineError::ChannelClosed),
        after_submit(after_shutdown(chs), h, item) == after_shutdown(chs),
{
}

/// A producer that cached a handle for a kind, submitting after the
/// registry shut down, gets `ChannelClosed` and enqueues nothing.
pub proof fn lemma_cached_handle_sees_shutdown(ctx: Context, chs: Seq<ChannelView>, item: ReportItem)
    requires
        ctx.cached(item.spec_kind()) is Some,
    ensures
        send_outcome(ctx.cached(item.spec_kind()), after_shutdown(chs), item.spec_kind())
            == Err::<(), PipelineError>(PipelineError::ChannelClosed),
        after_send(ctx.cached(item.spec_kind()), after_shutdown(chs), item) == after_shutdown(chs),
{
}

/// The handle a lookup of a registered kind yields names that kind's open
/// channel, so a submission through it is accepted.
pub proof fn lemma_registered_handle_accepts(chs: Seq<ChannelView>, kind: ReportKind)
    requires
        channels_wf(chs),
        chs.len() <= usize::MAX,
        is_registered(chs, kind),
    ensures
        registered_handle(chs, kind) matches Some(h) && h.kind == kind && accepts(chs, h),
        submit_result(chs, registered_handle(chs, kind)->0) is Ok,
{
}

/// The bytes a consumer writes for `a` followed by `b` are those it writes
/// for `a`, followed by those it writes for `b` once `a` has been written.
pub proof fn lemma_records_concat(
    kind: ReportKind,
    header_written: bool,
    a: Seq<ReportItem>,
    b: Seq<ReportItem>,
)
    ensures
        records(kind, header_written, a + b) == records(kind, header_written, a) + records(
            kind,
            header_written || a.len() > 0,
            b,
        ),
    decreases b.len(),
{
    if b.len() == 0 {
        assert(a + b =~= a);
        assert(records(kind, header_written || a.len() > 0, b) =~= Seq::<u8>::empty());
        assert(records(kind, header_written, a) + Seq::<u8>::empty() =~= records(
            kind,
            header_written,
            a,
        ));
    } else {
        lemma_records_concat(kind, header_written, a, b.drop_last());
        assert((a + b).drop_last() =~= a + b.drop_last());
        assert((a + b).last() == b.last());
        let h2 = header_written || a.len() > 0;
        assert((header_written || (a + b).len() > 1) == (h2 || b.len() > 1));
        assert(records(kind, header_written, a + b) =~= records(kind, header_written, a)
            + records(kind, h2, b.drop_last()) + record_bytes(
            kind,
            h2 || b.len() > 1,
            b.last(),
        ));
    }
}

} // verus!
