//! The producer handle: submits reports, caching the handle of each kind.
use vstd::prelude::*;
use crate::global_state::{
    after_register, after_submit, is_registered, registered_handle, submit_result, ChannelView,
    GlobalState, Outbound, PipelineError,
};
use crate::report::{Report, ReportItem, ReportKind};

verus! {

/// The handle a producer with cache entry `cached` submits `kind` through:
/// the cached one, else the registry's.
pub open spec fn resolve(
    cached: Option<Outbound>,
    chs: Seq<ChannelView>,
    kind: ReportKind,
) -> Option<Outbound> {
    match cached {
        Some(h) => Some(h),
        None => registered_handle(chs, kind),
    }
}

/// The outcome of a submission of `kind` by a producer with cache entry
/// `cached`.
pub open spec fn send_outcome(
    cached: Option<Outbound>,
    chs: Seq<ChannelView>,
    kind: ReportKind,
) -> Result<(), PipelineError> {
    match resolve(cached, chs, kind) {
        Some(h) => submit_result(chs, h),
        None => Err(PipelineError::UnregisteredKind),
    }
}

/// The channels after a submission of `item` by a producer with cache entry
/// `cached`.
pub open spec fn after_send(
    cached: Option<Outbound>,
    chs: Seq<ChannelView>,
    item: ReportItem,
) -> Seq<ChannelView> {
    match resolve(cached, chs, item.spec_kind()) {
        Some(h) => after_submit(chs, h, item),
        None => chs,
    }
}

/// The cache entry after a submission: kept or filled on success, dropped
/// once its channel turned out closed, so that the next submission asks the
/// registry again.
pub open spec fn cache_after_send(
    cached: Option<Outbound>,
    chs: Seq<ChannelView>,
    kind: ReportKind,
) -> Option<Outbound> {
    match resolve(cached, chs, kind) {
        Some(h) => if submit_result(chs, h) is Ok {
            Some(h)
        } else {
            None
        },
        None => None,
    }
}

/// A producer handle. Each producer owns one; dropping it touches neither
/// the registry nor any consumer. Its cached handles belong to the registry
/// it submitted to: used with another registry, a cached handle names a slot
/// there, and a submission through it is judged by that slot (refused with
/// `ChannelClosed` unless it holds an open channel of the same kind).
pub struct Context {
    name: String,
    incidence: Option<Outbound>,
    death: Option<Outbound>,
}

impl Context {
    /// The handle cached for `kind`, if any.
    pub closed spec fn cached(&self, kind: ReportKind) -> Option<Outbound> {
        match kind {
            ReportKind::Incidence => self.incidence,
            ReportKind::Death => self.death,
        }
    }

    pub closed spec fn spec_name(&self) -> Seq<char> {
        self.name@
    }

    /// Every cached handle is of the kind it is cached for.
    pub open spec fn wf(&self) -> bool {
        forall|k: ReportKind| #[trigger] self.cached(k) matches Some(h) ==> h.kind == k
    }

    fn cache_get(&self, kind: ReportKind) -> (r: Option<Outbound>)
        ensures
            r == self.cached(kind),
    {
        match kind {
            ReportKind::Incidence => self.incidence,
            ReportKind::Death => self.death,
        }
    }

    fn cache_set(&mut self, kind: ReportKind, h: Option<Outbound>)
        ensures
            final(self).cached(kind) == h,
            forall|k: ReportKind| k != kind ==> #[trigger] final(self).cached(k) == old(self).cached(k),
            final(self).spec_name() == old(self).spec_name(),
    {
        match kind {
            ReportKind::Incidence => self.incidence = h,
            ReportKind::Death => self.death = h,
        }
    }

    /// A producer handle named `name`, with an empty cache.
    pub fn new(name: String) -> (r: Context)
        ensures
            r.wf(),
            r.spec_name() == name@,
            forall|k: ReportKind| #[trigger] r.cached(k) is None,
    {
        Context { name, incidence: None, death: None }
    }

    /// The producer's name.
    pub fn name(&self) -> (r: &String)
        ensures
            r@ == self.spec_name(),
    {
        &self.name
    }

    /// Registers `kind` in `state` and caches the new handle.
    pub fn add_report(&mut self, state: &mut GlobalState, kind: ReportKind) -> (r: Result<
        (),
        PipelineError,
    >)
        requires
            old(self).wf(),
            old(state).wf(),
            old(state)@.len() < usize::MAX,
        ensures
            final(self).wf(),
            final(state).wf(),
            final(state)@ == after_register(old(state)@, kind),
            final(self).spec_name() == old(self).spec_name(),
            forall|k: ReportKind| k != kind ==> #[trigger] final(self).cached(k) == old(self).cached(k),
            r is Ok ==> final(self).cached(kind) == registered_handle(final(state)@, kind),
            r is Err ==> r == Err::<(), PipelineError>(PipelineError::AlreadyRegistered)
                && final(self).cached(kind) == old(self).cached(kind),
            r is Ok <==> !is_registered(old(state)@, kind),
    {
        match state.setup_report(kind) {
            Ok(_) => {
                let found = state.get_report_sender(kind);
                self.cache_set(kind, found);
                Ok(())
            },
            Err(e) => Err(e),
        }
    }

    /// Submits `report` to its kind's channel. The cached handle is used if
    /// there is one, else the registry's, which is then cached. Fails with
    /// `UnregisteredKind` if neither exists, and with `ChannelClosed` if the
    /// handle's channel was closed; that handle is then dropped from the
    /// cache.
    pub fn send_report<T: Report>(&mut self, state: &mut GlobalState, report: T) -> (r: Result<
        (),
        PipelineError,
    >)
        requires
            old(self).wf(),
            old(state).wf(),
        ensures
            final(self).wf(),
            final(state).wf(),
            ({
                let item = report.spec_item();
                let k = item.spec_kind();
                &&& r == send_outcome(old(self).cached(k), old(state)@, k)
                &&& final(state)@ == after_send(old(self).cached(k), old(state)@, item)
                &&& final(self).cached(k) == cache_after_send(old(self).cached(k), old(state)@, k)
            }),
            forall|k: ReportKind| k != report.spec_item().spec_kind() ==> #[trigger] final(self).cached(k) == old(self).cached(k),
            final(self).spec_name() == old(self).spec_name(),
    {
        let item = report.into_item();
        let kind = item.kind();
        let h = match self.cache_get(kind) {
            Some(h) => h,
            None => match state.get_report_sender(kind) {
                Some(h) => h,
                None => {
                    return Err(PipelineError::UnregisteredKind);
                },
            },
        };
        let r = state.submit(h, item);
        if r.is_ok() {
            self.cache_set(kind, Some(h));
        } else {
            self.cache_set(kind, None);
        }
        r
    }
}

} // verus!
