//! What the event watcher does with each event: which object to fetch anew, and how the
//! tree takes in what was fetched.
use vstd::prelude::*;

use crate::event::{EventKindView, EventView, HistoryEventKind, HistoryKindView, Timestamp, ZfsEvent, ZfsEventKind};
use crate::object::{ObjectView, PoolInfoView, ZDataset, ZPool};
use crate::tree::{delta_dataset_spec, delta_pool_spec, DatasetId, DatasetTree, PoolId};

verus! {

/// The step the watcher takes for one event.
#[derive(Debug)]
pub enum WatchAction {
    /// The event happened before the watcher started: it is dropped.
    Skip,
    /// A property of a dataset was set: fetch the dataset with that property.
    RefreshDataset { dataset: String, property: String },
    /// A property of a pool was set: fetch the pool with that property.
    RefreshPoolProperty { pool: String, guid: u64, property: String },
    /// A pool was imported: fetch it.
    RefreshPool { pool: String, guid: u64 },
    /// A pool was exported: forget it.
    ExportPool { guid: u64 },
    /// A pool was destroyed: mark it.
    DestroyPool { guid: u64 },
    /// Nothing to update; the event is only passed on.
    Publish,
}

pub enum WatchActionView {
    Skip,
    RefreshDataset { dataset: Seq<char>, property: Seq<char> },
    RefreshPoolProperty { pool: Seq<char>, guid: u64, property: Seq<char> },
    RefreshPool { pool: Seq<char>, guid: u64 },
    ExportPool { guid: u64 },
    DestroyPool { guid: u64 },
    Publish,
}

impl DeepView for WatchAction {
    type V = WatchActionView;

    open spec fn deep_view(&self) -> WatchActionView {
        match self {
            WatchAction::Skip => WatchActionView::Skip,
            WatchAction::RefreshDataset { dataset, property } => WatchActionView::RefreshDataset {
                dataset: dataset@,
                property: property@,
            },
            WatchAction::RefreshPoolProperty { pool, guid, property } =>
                WatchActionView::RefreshPoolProperty { pool: pool@, guid: *guid, property: property@ },
            WatchAction::RefreshPool { pool, guid } => WatchActionView::RefreshPool {
                pool: pool@,
                guid: *guid,
            },
            WatchAction::ExportPool { guid } => WatchActionView::ExportPool { guid: *guid },
            WatchAction::DestroyPool { guid } => WatchActionView::DestroyPool { guid: *guid },
            WatchAction::Publish => WatchActionView::Publish,
        }
    }
}

/// The watcher's step for an event, given the instant it started reading events: older
/// events are skipped; a set property refreshes the dataset it names, or else the pool;
/// import refreshes the pool; export and destroy update it; anything else is only passed on.
pub open spec fn plan_event_spec(now: Timestamp, e: EventView<EventKindView>) -> WatchActionView {
    if now.later_than(e.time) {
        WatchActionView::Skip
    } else {
        match e.kind {
            EventKindView::HistoryEvent { kind, .. } => match kind {
                HistoryKindView::SetProperty { property, dataset, .. } => match dataset {
                    Some(ds) => WatchActionView::RefreshDataset { dataset: ds.name, property },
                    None => WatchActionView::RefreshPoolProperty {
                        pool: e.pool,
                        guid: e.pool_guid,
                        property,
                    },
                },
                _ => WatchActionView::Publish,
            },
            EventKindView::PoolImport => WatchActionView::RefreshPool {
                pool: e.pool,
                guid: e.pool_guid,
            },
            EventKindView::PoolExport => WatchActionView::ExportPool { guid: e.pool_guid },
            EventKindView::PoolDestroy => WatchActionView::DestroyPool { guid: e.pool_guid },
            _ => WatchActionView::Publish,
        }
    }
}

/// Decides the watcher's step for one event.
pub fn plan_event(now: &Timestamp, event: &ZfsEvent<ZfsEventKind>) -> (r: WatchAction)
    ensures
        r.deep_view() == plan_event_spec(*now, event.deep_view()),
{
    if now.is_later_than(&event.time) {
        return WatchAction::Skip;
    }
    match &event.kind {
        ZfsEventKind::HistoryEvent { kind, .. } => match kind {
            HistoryEventKind::SetProperty { property, dataset, .. } => match dataset {
                Some(ds) => WatchAction::RefreshDataset {
                    dataset: ds.name.clone(),
                    property: property.clone(),
                },
                None => WatchAction::RefreshPoolProperty {
                    pool: event.pool.clone(),
                    guid: event.pool_guid,
                    property: property.clone(),
                },
            },
            _ => WatchAction::Publish,
        },
        ZfsEventKind::PoolImport => WatchAction::RefreshPool {
            pool: event.pool.clone(),
            guid: event.pool_guid,
        },
        ZfsEventKind::PoolExport => WatchAction::ExportPool { guid: event.pool_guid },
        ZfsEventKind::PoolDestroy => WatchAction::DestroyPool { guid: event.pool_guid },
        _ => WatchAction::Publish,
    }
}

/// Whether the event is passed on to subscribers after the step: all but skipped ones.
pub fn forwards(action: &WatchAction) -> (b: bool)
    ensures
        b == !(action.deep_view() is Skip),
{
    match action {
        WatchAction::Skip => false,
        _ => true,
    }
}

/// What a refresh fetched: the fetch failed, or it gave (or found no) dataset or pool.
#[derive(Debug)]
pub enum Fetched {
    Failed,
    Dataset(Option<ZDataset>),
    Pool(Option<ZPool>),
    Nothing,
}

pub enum FetchedView {
    Failed,
    Dataset(Option<ObjectView<()>>),
    Pool(Option<ObjectView<PoolInfoView>>),
    Nothing,
}

impl DeepView for Fetched {
    type V = FetchedView;

    open spec fn deep_view(&self) -> FetchedView {
        match self {
            Fetched::Failed => FetchedView::Failed,
            Fetched::Dataset(d) => FetchedView::Dataset(d.deep_view()),
            Fetched::Pool(p) => FetchedView::Pool(p.deep_view()),
            Fetched::Nothing => FetchedView::Nothing,
        }
    }
}

/// The tree after a step: a refreshed dataset or pool takes in what was fetched (nothing
/// changes when the fetch failed); an export forgets the pool; a destroy marks it.
pub open spec fn apply_spec(
    d: Map<Seq<char>, crate::tree::DatasetView>,
    p: Map<u64, crate::tree::PoolView>,
    a: WatchActionView,
    f: FetchedView,
) -> (Map<Seq<char>, crate::tree::DatasetView>, Map<u64, crate::tree::PoolView>) {
    match a {
        WatchActionView::RefreshDataset { dataset, .. } => match f {
            FetchedView::Dataset(ds) => (delta_dataset_spec(d, dataset, ds), p),
            _ => (d, p),
        },
        WatchActionView::RefreshPoolProperty { guid, .. } => match f {
            FetchedView::Pool(pool) => (d, delta_pool_spec(p, guid, pool, false)),
            _ => (d, p),
        },
        WatchActionView::RefreshPool { guid, .. } => match f {
            FetchedView::Pool(pool) => (d, delta_pool_spec(p, guid, pool, false)),
            _ => (d, p),
        },
        WatchActionView::ExportPool { guid } => (d, delta_pool_spec(p, guid, None, false)),
        WatchActionView::DestroyPool { guid } => (d, delta_pool_spec(p, guid, None, true)),
        _ => (d, p),
    }
}

impl DatasetTree {
    /// Takes in the outcome of a watcher step.
    pub fn apply_watch_action(&mut self, action: &WatchAction, fetched: Fetched)
        ensures
            (final(self).dataset_map(), final(self).pool_map()) == apply_spec(
                old(self).dataset_map(),
                old(self).pool_map(),
                action.deep_view(),
                fetched.deep_view(),
            ),
    {
        match action {
            WatchAction::RefreshDataset { dataset, .. } => match fetched {
                Fetched::Dataset(ds) => {
                    self.delta_dataset(DatasetId::new(dataset.clone()), ds);
                },
                _ => {},
            },
            WatchAction::RefreshPoolProperty { guid, .. } => match fetched {
                Fetched::Pool(p) => {
                    self.delta_pool(PoolId::new(*guid), p, false);
                },
                _ => {},
            },
            WatchAction::RefreshPool { guid, .. } => match fetched {
                Fetched::Pool(p) => {
                    self.delta_pool(PoolId::new(*guid), p, false);
                },
                _ => {},
            },
            WatchAction::ExportPool { guid } => {
                self.delta_pool(PoolId::new(*guid), None, false);
            },
            WatchAction::DestroyPool { guid } => {
                self.delta_pool(PoolId::new(*guid), None, true);
            },
            _ => {},
        }
    }
}

} // verus!

verus! {

/// An event from before the watcher started leaves the tree as it was, whatever was
/// fetched.
pub proof fn law_old_events_change_nothing(
    d: Map<Seq<char>, crate::tree::DatasetView>,
    p: Map<u64, crate::tree::PoolView>,
    now: Timestamp,
    e: EventView<EventKindView>,
    f: FetchedView,
)
    requires
        now.later_than(e.time),
    ensures
        apply_spec(d, p, plan_event_spec(now, e), f) == (d, p),
{
}

/// A refresh whose fetch failed leaves the tree as it was.
pub proof fn law_failed_fetch_changes_nothing(
    d: Map<Seq<char>, crate::tree::DatasetView>,
    p: Map<u64, crate::tree::PoolView>,
    a: WatchActionView,
)
    requires
        a is RefreshDataset || a is RefreshPoolProperty || a is RefreshPool,
    ensures
        apply_spec(d, p, a, FetchedView::Failed) == (d, p),
{
}

/// Being later is a strict order on instants.
pub proof fn law_later_is_strict_order(a: Timestamp, b: Timestamp, c: Timestamp)
    ensures
        !a.later_than(a),
        a.later_than(b) ==> !b.later_than(a),
        a.later_than(b) && b.later_than(c) ==> a.later_than(c),
{
}

} // verus!

verus! {

/// The watcher run over the events `es` of one event stream, in order, each step taking
/// in `fs[i]`, what was fetched for the step of `es[i]`: the tree it leaves and the events
/// it passes on to subscribers, in order.
pub open spec fn watch_run(
    now: Timestamp,
    es: Seq<EventView<EventKindView>>,
    fs: Seq<FetchedView>,
    d: Map<Seq<char>, crate::tree::DatasetView>,
    p: Map<u64, crate::tree::PoolView>,
) -> (Map<Seq<char>, crate::tree::DatasetView>, Map<u64, crate::tree::PoolView>, Seq<
    EventView<EventKindView>,
>)
    decreases es.len(),
{
    if es.len() == 0 {
        (d, p, Seq::empty())
    } else {
        let prev = watch_run(now, es.drop_last(), fs, d, p);
        let a = plan_event_spec(now, es.last());
        let next = apply_spec(prev.0, prev.1, a, fs[es.len() - 1]);
        let out = if a is Skip {
            prev.2
        } else {
            prev.2.push(es.last())
        };
        (next.0, next.1, out)
    }
}

/// Whether the event happened at or after the instant `now`.
pub open spec fn not_before(now: Timestamp) -> spec_fn(EventView<EventKindView>) -> bool {
    |e: EventView<EventKindView>| !now.later_than(e.time)
}

/// The watcher passes on exactly the events of its stream that happened at or after the
/// instant it started reading, in the order of the stream, whatever was fetched.
pub proof fn law_watcher_passes_on_newer_events(
    now: Timestamp,
    es: Seq<EventView<EventKindView>>,
    fs: Seq<FetchedView>,
    d: Map<Seq<char>, crate::tree::DatasetView>,
    p: Map<u64, crate::tree::PoolView>,
)
    ensures
        watch_run(now, es, fs, d, p).2 == es.filter(not_before(now)),
    decreases es.len(),
{
    reveal_with_fuel(Seq::filter, 1);
    if es.len() > 0 {
        law_watcher_passes_on_newer_events(now, es.drop_last(), fs, d, p);
    }
}

/// An event from before the watcher started, arriving after the events `es`, changes
/// neither the tree nor what is passed on, whatever was fetched for it.
pub proof fn law_older_event_changes_nothing(
    now: Timestamp,
    es: Seq<EventView<EventKindView>>,
    e: EventView<EventKindView>,
    fs: Seq<FetchedView>,
    d: Map<Seq<char>, crate::tree::DatasetView>,
    p: Map<u64, crate::tree::PoolView>,
)
    requires
        now.later_than(e.time),
    ensures
        watch_run(now, es.push(e), fs, d, p) == watch_run(now, es, fs, d, p),
{
    assert(es.push(e).drop_last() =~= es);
    let prev = watch_run(now, es, fs, d, p);
    law_old_events_change_nothing(prev.0, prev.1, now, e, fs[es.len() as int]);
}

} // verus!

verus! {

/// A refresh of a pool (its import, or a property set on it) that fetched the pool keeps
/// the pool, not destroyed, with every fetched property.
pub proof fn law_refreshed_pool_is_live(
    d: Map<Seq<char>, crate::tree::DatasetView>,
    p: Map<u64, crate::tree::PoolView>,
    a: WatchActionView,
    pool: ObjectView<PoolInfoView>,
    k: Seq<char>,
)
    requires
        a is RefreshPool || a is RefreshPoolProperty,
    ensures
        ({
            let guid = if a is RefreshPool {
                a->RefreshPool_guid
            } else {
                a->RefreshPoolProperty_guid
            };
            let r = apply_spec(d, p, a, FetchedView::Pool(Some(pool)));
            &&& r.1.dom().contains(guid)
            &&& !r.1[guid].destroyed
            &&& pool.properties.dom().contains(k) ==> r.1[guid].properties.dom().contains(k)
                && r.1[guid].properties[k] == pool.properties[k]
            &&& r.0 == d
        }),
{
}

/// Only a destroy step marks a pool destroyed: after any other step, a pool marked
/// destroyed was kept, and marked destroyed, before.
pub proof fn law_only_destroy_marks_destroyed(
    d: Map<Seq<char>, crate::tree::DatasetView>,
    p: Map<u64, crate::tree::PoolView>,
    a: WatchActionView,
    f: FetchedView,
    k: u64,
)
    requires
        !(a is DestroyPool),
        apply_spec(d, p, a, f).1.dom().contains(k),
        apply_spec(d, p, a, f).1[k].destroyed,
    ensures
        p.dom().contains(k),
        p[k].destroyed,
{
}

/// A destroy step marks the pool destroyed if it was kept, and changes nothing else.
pub proof fn law_destroy_marks_only_that_pool(
    d: Map<Seq<char>, crate::tree::DatasetView>,
    p: Map<u64, crate::tree::PoolView>,
    guid: u64,
    f: FetchedView,
    k: u64,
)
    ensures
        ({
            let r = apply_spec(d, p, WatchActionView::DestroyPool { guid }, f);
            &&& r.0 == d
            &&& r.1.dom().contains(k) == p.dom().contains(k)
            &&& p.dom().contains(k) ==> r.1[k].destroyed == (k == guid || p[k].destroyed)
            &&& p.dom().contains(k) ==> r.1[k].properties == p[k].properties
                && r.1[k].name == p[k].name
        }),
{
}

} // verus!

verus! {

/// What the watcher makes of each pool event that happened after it started: an export
/// forgets the event's pool and a destroy marks it destroyed (if kept), whatever was
/// fetched; an import whose fetch found the pool keeps it live with the fetched
/// properties. Each leaves the datasets as they were and is passed on.
pub proof fn law_pool_events_update_the_tree(
    d: Map<Seq<char>, crate::tree::DatasetView>,
    p: Map<u64, crate::tree::PoolView>,
    now: Timestamp,
    e: EventView<EventKindView>,
    f: FetchedView,
    pool: ObjectView<PoolInfoView>,
    k: Seq<char>,
)
    requires
        !now.later_than(e.time),
    ensures
        !(plan_event_spec(now, e) is Skip),
        e.kind is PoolExport ==> !apply_spec(d, p, plan_event_spec(now, e), f).1.dom().contains(
            e.pool_guid,
        ) && apply_spec(d, p, plan_event_spec(now, e), f).0 == d,
        e.kind is PoolDestroy ==> {
            let r = apply_spec(d, p, plan_event_spec(now, e), f);
            &&& r.0 == d
            &&& r.1.dom().contains(e.pool_guid) == p.dom().contains(e.pool_guid)
            &&& p.dom().contains(e.pool_guid) ==> r.1[e.pool_guid].destroyed
        },
        e.kind is PoolImport ==> {
            let r = apply_spec(d, p, plan_event_spec(now, e), FetchedView::Pool(Some(pool)));
            &&& r.0 == d
            &&& r.1.dom().contains(e.pool_guid)
            &&& !r.1[e.pool_guid].destroyed
            &&& pool.properties.dom().contains(k) ==> r.1[e.pool_guid].properties[k]
                == pool.properties[k]
        },
{
}

} // verus!
