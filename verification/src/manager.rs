//! The decisions of the manager: what the pool and storage-node controllers write, and
//! what the manager's API answers.
use vstd::prelude::*;

use crate::crds::{PoolStatus, PoolStatusView};
use crate::number::decimal;
use crate::object::{ObjectView, PoolInfoView, PropertiesView, ZPool};
use crate::scalar::{ScalarView, ZfsScalar};
use crate::strmap::StrMap;
use crate::tree::{Pool, PoolView};

verus! {

/// How a property value is written into a pool's status: a float as `Display` writes it,
/// an integer in decimal, a string as it is, the absent value as the empty string.
pub open spec fn status_text(v: ScalarView) -> Seq<char> {
    match v {
        ScalarView::F32(f) => f.text,
        ScalarView::U64(u) => decimal(u as nat),
        ScalarView::String(s) => s,
        ScalarView::Absent => seq![],
    }
}

/// The text of a property value in a pool's status.
pub fn status_value(v: &ZfsScalar) -> (r: String)
    ensures
        r@ == status_text(v.deep_view()),
{
    match v {
        ZfsScalar::F32(f) => f.text.clone(),
        ZfsScalar::U64(u) => crate::number::render_u64(*u),
        ZfsScalar::String(s) => s.clone(),
        ZfsScalar::Absent => String::new(),
    }
}

/// The status properties of a pool: each property's value as text.
pub open spec fn status_properties(props: PropertiesView) -> Map<Seq<char>, Seq<char>> {
    props.map_values(|p: crate::object::PropertyView<ScalarView>| status_text(p.value))
}

/// What the pool controller does with a `Pool` resource.
#[derive(Debug)]
pub enum PoolReconcile {
    /// Write this status.
    PatchStatus(PoolStatus),
    /// The pool was destroyed: delete the resource.
    Delete,
}

pub enum PoolReconcileView {
    PatchStatus(PoolStatusView),
    Delete,
}

impl DeepView for PoolReconcile {
    type V = PoolReconcileView;

    open spec fn deep_view(&self) -> PoolReconcileView {
        match self {
            PoolReconcile::PatchStatus(s) => PoolReconcileView::PatchStatus(s.deep_view()),
            PoolReconcile::Delete => PoolReconcileView::Delete,
        }
    }
}

/// The pool controller's decision for the pool of the resource's name, as the tree has
/// it: a destroyed pool's resource is deleted; a known pool is imported with its
/// properties as text; an unknown one is not imported.
pub open spec fn reconcile_pool_spec(pool: Option<PoolView>) -> PoolReconcileView {
    match pool {
        Some(p) => if p.destroyed {
            PoolReconcileView::Delete
        } else {
            PoolReconcileView::PatchStatus(
                PoolStatusView { imported: true, properties: status_properties(p.properties) },
            )
        },
        None => PoolReconcileView::PatchStatus(
            PoolStatusView { imported: false, properties: Map::empty() },
        ),
    }
}

/// Decides what the pool controller writes for the pool found (if any) under the
/// resource's name.
pub fn reconcile_pool(pool: Option<Pool>) -> (r: PoolReconcile)
    ensures
        r.deep_view() == reconcile_pool_spec(pool.deep_view()),
{
    match pool {
        Some(p) => {
            if p.destroyed {
                return PoolReconcile::Delete;
            }
            let n = p.properties.len();
            let ghost e = p.properties.entry_seq();
            let ghost m = p.properties.deep_view();
            let mut props: StrMap<String> = StrMap::new();
            let mut i: usize = 0;
            while i < n
                invariant
                    i <= n,
                    n == e.len(),
                    e == p.properties.entry_seq(),
                    crate::strmap::keys_distinct(e),
                    m == crate::strmap::assoc_map(e),
                    props.deep_view() == status_properties(
                        crate::strmap::assoc_map(e.take(i as int)),
                    ),
                decreases n - i,
            {
                let (k, v) = p.properties.entry_at(i);
                let text = status_value(&v.value);
                let ghost before = e.take(i as int);
                props.insert(k.clone(), text);
                proof {
                    assert(e.take(i + 1) =~= before.push(e[i as int]));
                    assert forall|a: int, b: int| 0 <= a < b < before.len() implies #[trigger] before[a].0
                        != #[trigger] before[b].0 by {}
                    if crate::strmap::has_key(before, e[i as int].0) {
                        let a = choose|a: int| 0 <= a < before.len() && #[trigger] before[a].0 == e[i as int].0;
                        assert(e[a].0 != e[i as int].0);
                    }
                    crate::strmap::lemma_assoc_push(before, e[i as int].0, e[i as int].1);
                    assert(props.deep_view() =~= status_properties(
                        crate::strmap::assoc_map(e.take(i + 1)),
                    ));
                }
                i = i + 1;
            }
            proof {
                assert(e.take(n as int) =~= e);
            }
            PoolReconcile::PatchStatus(PoolStatus { imported: true, properties: props })
        },
        None => PoolReconcile::PatchStatus(PoolStatus::new()),
    }
}

pub open spec fn is_live() -> spec_fn(PoolView) -> bool {
    |p: PoolView| !p.destroyed
}

/// The names of the pools that the storage-node controller writes a `Pool` resource
/// for: those not destroyed, in the order given.
pub open spec fn pools_to_apply_spec(pools: Seq<PoolView>) -> Seq<Seq<char>> {
    pools.filter(is_live()).map_values(|p: PoolView| p.name)
}

/// Names of the pools to write `Pool` resources for.
pub fn pools_to_apply(pools: &Vec<Pool>) -> (r: Vec<String>)
    ensures
        crate::text::string_views(r@) == pools_to_apply_spec(crate::tree::pool_views(pools@)),
{
    let ghost pv = crate::tree::pool_views(pools@);
    let mut r: Vec<String> = Vec::new();
    let n = pools.len();
    let mut i: usize = 0;
    proof {
        assert(pv.take(0) =~= Seq::<PoolView>::empty());
        assert(pools_to_apply_spec(pv.take(0)) =~= Seq::<Seq<char>>::empty());
        assert(crate::text::string_views(r@) =~= Seq::<Seq<char>>::empty());
    }
    while i < n
        invariant
            i <= n,
            n == pools@.len(),
            pv == crate::tree::pool_views(pools@),
            crate::text::string_views(r@) == pools_to_apply_spec(pv.take(i as int)),
        decreases n - i,
    {
        let p = &pools[i];
        let ghost before = r@;
        proof {
            assert(pv[i as int] == p.deep_view());
            assert(pv.take(i + 1) =~= pv.take(i as int).push(p.deep_view()));
            pv.take(i as int).lemma_filter_push(p.deep_view(), is_live());
        }
        if !p.destroyed {
            let name = p.name.clone();
            r.push(name);
            proof {
                assert(crate::text::string_views(r@) =~= crate::text::string_views(before).push(
                    name@,
                ));
            }
        }
        proof {
            assert(pools_to_apply_spec(pv.take(i + 1)) =~= crate::text::string_views(r@));
        }
        i = i + 1;
    }
    proof {
        assert(pv.take(n as int) =~= pv);
    }
    r
}

/// Whether a `StorageNode` resource is the one of this node: its name is the node's.
pub fn is_own_node(name: &Option<String>, node_name: &str) -> (b: bool)
    ensures
        b == (name is Some && name->0@ == node_name@),
{
    match name {
        Some(n) => crate::text::str_equal(n.as_str(), node_name),
        None => false,
    }
}

/// The state of a pool in the manager's API.
#[derive(Debug, Clone, Copy, PartialEq, Eq)]
pub enum PoolState {
    Online,
}

/// A pool as the manager's API lists it.
#[derive(Debug)]
pub struct PoolSummary {
    pub name: String,
    pub state: PoolState,
}

pub struct PoolSummaryView {
    pub name: Seq<char>,
    pub state: PoolState,
}

impl DeepView for PoolSummary {
    type V = PoolSummaryView;

    open spec fn deep_view(&self) -> PoolSummaryView {
        PoolSummaryView { name: self.name@, state: self.state }
    }
}

/// A listed pool as the API gives it: its name, and online whatever its state.
pub open spec fn summary_of(p: ObjectView<PoolInfoView>) -> PoolSummaryView {
    PoolSummaryView { name: p.name, state: PoolState::Online }
}

pub open spec fn summaries_of(ps: Seq<ObjectView<PoolInfoView>>) -> Seq<PoolSummaryView> {
    ps.map_values(|p: ObjectView<PoolInfoView>| summary_of(p))
}

pub open spec fn summary_views(v: Seq<PoolSummary>) -> Seq<PoolSummaryView> {
    v.map_values(|p: PoolSummary| p.deep_view())
}

/// `ListPools`: every listed pool, in the order given.
pub fn list_pools(pools: Vec<ZPool>) -> (r: Vec<PoolSummary>)
    ensures
        summary_views(r@) == summaries_of(crate::tree::object_views(pools@)),
{
    let ghost ov = crate::tree::object_views(pools@);
    let mut r: Vec<PoolSummary> = Vec::new();
    for p in iter: pools
        invariant
            iter.seq() == pools@,
            ov == crate::tree::object_views(pools@),
            summary_views(r@) == summaries_of(ov.take(iter.index())),
    {
        let ghost i = iter.index();
        let ghost before = r@;
        let ghost pv = p.deep_view();
        let s = PoolSummary { name: p.name, state: PoolState::Online };
        r.push(s);
        proof {
            assert(ov[i] == pv);
            assert(ov.take(i + 1) =~= ov.take(i).push(pv));
            assert(summary_views(r@) =~= summary_views(before).push(s.deep_view()));
            assert(summary_views(r@) =~= summaries_of(ov.take(i + 1)));
        }
    }
    proof {
        assert(ov.take(ov.len() as int) =~= ov);
    }
    r
}

/// `GetPool`: the first listed pool called `name`, as the API gives it.
pub fn get_pool_summary(pools: Vec<ZPool>, name: &str) -> (r: Option<PoolSummary>)
    ensures
        match r {
            Some(s) => exists|i: int|
                0 <= i < pools@.len() && #[trigger] pools@[i].name@ == name@ && (forall|j: int|
                    0 <= j < i ==> #[trigger] pools@[j].name@ != name@) && s.deep_view()
                    == summary_of(pools@[i].deep_view()),
            None => forall|i: int| 0 <= i < pools@.len() ==> #[trigger] pools@[i].name@ != name@,
        },
{
    let ghost orig = pools@;
    for p in iter: pools
        invariant
            iter.seq() == orig,
            forall|j: int| 0 <= j < iter.index() ==> #[trigger] orig[j].name@ != name@,
    {
        if crate::text::str_equal(p.name.as_str(), name) {
            let ghost i = iter.index();
            proof {
                assert(orig[i].name@ == name@);
            }
            return Some(PoolSummary { name: p.name, state: PoolState::Online });
        }
    }
    None
}

} // verus!

verus! {

/// The status text of an integer property is made of decimal digits and reads back,
/// as a `u64` in base 10, as the same integer.
pub proof fn law_status_integer_reads_back(u: u64)
    ensures
        crate::number::parse_u64_spec(status_text(ScalarView::U64(u)), 10) == Ok::<
            int,
            crate::number::IntErrorKind,
        >(u as int),
        forall|i: int|
            0 <= i < status_text(ScalarView::U64(u)).len() ==> (#[trigger] crate::number::char_digit(
                status_text(ScalarView::U64(u))[i],
                10,
            )) is Some,
{
    crate::number::lemma_parse_decimal(u as nat, u64::MAX as int);
    crate::number::lemma_decimal_all_digits(u as nat);
}

/// The status the pool controller writes for a kept, live pool: imported, with each
/// property's value as text, and an integer property's text reading back as that integer.
pub proof fn law_reconcile_status_integers(pool: PoolView, k: Seq<char>, u: u64)
    requires
        !pool.destroyed,
        pool.properties.dom().contains(k),
        pool.properties[k].value == ScalarView::U64(u),
    ensures
        reconcile_pool_spec(Some(pool)) matches PoolReconcileView::PatchStatus(st) && st.imported
            && st.properties.dom().contains(k) && crate::number::parse_u64_spec(
            st.properties[k],
            10,
        ) == Ok::<int, crate::number::IntErrorKind>(u as int),
{
    law_status_integer_reads_back(u);
}

/// `ListPools` answers one summary per listed pool, in the order listed: as many entries
/// as the listing, the i-th named as the i-th listed pool and online, whatever its state.
pub proof fn law_list_pools_one_per_pool(ps: Seq<ObjectView<PoolInfoView>>)
    ensures
        summaries_of(ps).len() == ps.len(),
        forall|i: int|
            0 <= i < ps.len() ==> (#[trigger] summaries_of(ps)[i]).name == ps[i].name
                && summaries_of(ps)[i].state == PoolState::Online,
{
}

} // verus!

verus! {

/// The pool controller deletes the resource exactly when the pool is known and destroyed;
/// an unknown pool is reported not imported with no properties; a live pool is reported
/// imported with exactly its properties, a text property with its own text.
pub proof fn law_reconcile_pool_decisions(pool: Option<PoolView>, k: Seq<char>)
    ensures
        (reconcile_pool_spec(pool) is Delete) == (pool is Some && pool->0.destroyed),
        pool is None ==> reconcile_pool_spec(pool) == PoolReconcileView::PatchStatus(
            PoolStatusView { imported: false, properties: Map::empty() },
        ),
        pool is Some && !pool->0.destroyed ==> {
            &&& reconcile_pool_spec(pool) is PatchStatus
            &&& reconcile_pool_spec(pool)->PatchStatus_0.imported
            &&& reconcile_pool_spec(pool)->PatchStatus_0.properties.dom()
                == pool->0.properties.dom()
            &&& pool->0.properties.dom().contains(k) && pool->0.properties[k].value is String
                ==> reconcile_pool_spec(pool)->PatchStatus_0.properties[k]
                == pool->0.properties[k].value->String_0
        },
{
}

} // verus!
