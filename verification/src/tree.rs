//! The cached tree of pools and datasets, kept up to date from listings and events.
use vstd::prelude::*;


use crate::object::{Duplicate, ObjectView, PoolInfoView, Properties, PropertiesView, ZDataset, ZPool};
use crate::strmap::{KeyMap, MapKey};

verus! {

broadcast use vstd::std_specs::hash::group_hash_axioms;

/// A dataset, by name.
#[derive(Debug, Clone, PartialEq, Eq, Hash, Default)]
pub struct DatasetId(String);

/// A pool, by GUID.
#[derive(Debug, Clone, Copy, PartialEq, Eq, Hash, Default)]
pub struct PoolId(u64);

impl View for DatasetId {
    type V = Seq<char>;

    closed spec fn view(&self) -> Seq<char> {
        self.0@
    }
}

impl View for PoolId {
    type V = u64;

    closed spec fn view(&self) -> u64 {
        self.0
    }
}

impl MapKey for DatasetId {
    fn same_key(&self, other: &Self) -> (b: bool) {
        self.0 == other.0
    }

    fn duplicate_key(&self) -> (r: Self) {
        DatasetId(self.0.clone())
    }
}

impl DatasetId {
    pub fn new(name: String) -> (r: DatasetId)
        ensures
            r@ == name@,
    {
        DatasetId(name)
    }

    pub fn as_str(&self) -> (r: &str)
        ensures
            r@ == self@,
    {
        self.0.as_str()
    }
}

impl PoolId {
    pub fn new(guid: u64) -> (r: PoolId)
        ensures
            r@ == guid,
    {
        PoolId(guid)
    }

    pub fn guid(&self) -> (r: u64)
        ensures
            r == self@,
    {
        self.0
    }
}

pub open spec fn ids_view(v: Seq<DatasetId>) -> Seq<Seq<char>> {
    v.map_values(|d: DatasetId| d@)
}

fn duplicate_ids(v: &Vec<DatasetId>) -> (r: Vec<DatasetId>)
    ensures
        ids_view(r@) == ids_view(v@),
{
    let mut r: Vec<DatasetId> = Vec::new();
    let n = v.len();
    let mut i: usize = 0;
    while i < n
        invariant
            i <= n,
            n == v@.len(),
            r@.len() == i,
            forall|j: int| 0 <= j < i ==> #[trigger] r@[j]@ == v@[j]@,
        decreases n - i,
    {
        r.push(v[i].duplicate_key());
        i = i + 1;
    }
    assert(ids_view(r@) =~= ids_view(v@));
    r
}

/// A dataset of the tree.
#[derive(Debug)]
pub struct Dataset {
    pub name: String,
    pub path: String,
    pub parent: Option<DatasetId>,
    pub children: Vec<DatasetId>,
    pub pool: PoolId,
    pub properties: Properties,
}

pub struct DatasetView {
    pub name: Seq<char>,
    pub path: Seq<char>,
    pub parent: Option<Seq<char>>,
    pub children: Seq<Seq<char>>,
    pub pool: u64,
    pub properties: PropertiesView,
}

impl DeepView for Dataset {
    type V = DatasetView;

    open spec fn deep_view(&self) -> DatasetView {
        DatasetView {
            name: self.name@,
            path: self.path@,
            parent: match self.parent {
                Some(p) => Some(p@),
                None => None,
            },
            children: ids_view(self.children@),
            pool: self.pool@,
            properties: self.properties.deep_view(),
        }
    }
}

impl Duplicate for Dataset {
    fn duplicate(&self) -> (r: Self) {
        Dataset {
            name: self.name.clone(),
            path: self.path.clone(),
            parent: match &self.parent {
                Some(p) => Some(p.duplicate_key()),
                None => None,
            },
            children: duplicate_ids(&self.children),
            pool: self.pool,
            properties: self.properties.duplicate_map(),
        }
    }
}

/// A pool of the tree.
#[derive(Debug)]
pub struct Pool {
    pub guid: PoolId,
    pub name: String,
    pub datasets: Vec<DatasetId>,
    pub destroyed: bool,
    pub properties: Properties,
}

pub struct PoolView {
    pub guid: u64,
    pub name: Seq<char>,
    pub datasets: Seq<Seq<char>>,
    pub destroyed: bool,
    pub properties: PropertiesView,
}

impl DeepView for Pool {
    type V = PoolView;

    open spec fn deep_view(&self) -> PoolView {
        PoolView {
            guid: self.guid@,
            name: self.name@,
            datasets: ids_view(self.datasets@),
            destroyed: self.destroyed,
            properties: self.properties.deep_view(),
        }
    }
}

impl Duplicate for Pool {
    fn duplicate(&self) -> (r: Self) {
        Pool {
            guid: self.guid,
            name: self.name.clone(),
            datasets: duplicate_ids(&self.datasets),
            destroyed: self.destroyed,
            properties: self.properties.duplicate_map(),
        }
    }
}

/// The tree: datasets by name and pools by GUID.
#[derive(Debug)]
pub struct DatasetTree {
    datasets: KeyMap<DatasetId, Dataset>,
    pools: std::collections::HashMap<u64, Pool>,
}

/// The pools of a map, each by its view.
pub open spec fn pool_view_map(m: Map<u64, Pool>) -> Map<u64, PoolView> {
    m.map_values(|p: Pool| p.deep_view())
}

pub open spec fn empty_properties() -> PropertiesView {
    Map::empty()
}

/// A dataset as a listing gives it: its name is also its path.
pub open spec fn listed_dataset(d: ObjectView<()>) -> DatasetView {
    DatasetView {
        name: d.name,
        path: d.name,
        parent: None,
        children: seq![],
        pool: 0,
        properties: d.properties,
    }
}

/// The datasets of a listing, by name (a later entry wins).
pub open spec fn datasets_from(ds: Seq<ObjectView<()>>) -> Map<Seq<char>, DatasetView>
    decreases ds.len(),
{
    if ds.len() == 0 {
        Map::empty()
    } else {
        datasets_from(ds.drop_last()).insert(ds.last().name, listed_dataset(ds.last()))
    }
}

/// A pool as a listing gives it.
pub open spec fn listed_pool(p: ObjectView<PoolInfoView>) -> PoolView {
    PoolView {
        guid: p.inner.pool_guid,
        name: p.name,
        datasets: seq![],
        destroyed: false,
        properties: p.properties,
    }
}

/// The pools of a listing, by GUID (a later entry wins).
pub open spec fn pools_from(ps: Seq<ObjectView<PoolInfoView>>) -> Map<u64, PoolView>
    decreases ps.len(),
{
    if ps.len() == 0 {
        Map::empty()
    } else {
        pools_from(ps.drop_last()).insert(ps.last().inner.pool_guid, listed_pool(ps.last()))
    }
}

/// A dataset first seen in an update: named, with nothing else yet.
pub open spec fn fresh_dataset(name: Seq<char>) -> DatasetView {
    DatasetView {
        name,
        path: seq![],
        parent: None,
        children: seq![],
        pool: 0,
        properties: empty_properties(),
    }
}

/// `delta_dataset`: a fetched dataset merges its properties into the one kept (kept
/// first if it is new); no dataset removes it.
pub open spec fn delta_dataset_spec(
    m: Map<Seq<char>, DatasetView>,
    id: Seq<char>,
    d: Option<ObjectView<()>>,
) -> Map<Seq<char>, DatasetView> {
    match d {
        Some(ds) => {
            let base = if m.dom().contains(id) {
                m[id]
            } else {
                fresh_dataset(ds.name)
            };
            m.insert(
                id,
                DatasetView {
                    properties: base.properties.union_prefer_right(ds.properties),
                    ..base
                },
            )
        },
        None => m.remove(id),
    }
}

/// `delta_pool`: a fetched pool merges its properties into the one kept (kept first if
/// new) and takes `destroyed`; without a pool, an exported pool is removed and a destroyed
/// one, if kept, is marked destroyed.
pub open spec fn delta_pool_spec(
    m: Map<u64, PoolView>,
    id: u64,
    p: Option<ObjectView<PoolInfoView>>,
    destroyed: bool,
) -> Map<u64, PoolView> {
    match p {
        Some(pool) => {
            let base = if m.dom().contains(id) {
                m[id]
            } else {
                PoolView {
                    guid: id,
                    name: pool.name,
                    datasets: seq![],
                    destroyed,
                    properties: empty_properties(),
                }
            };
            m.insert(
                id,
                PoolView {
                    properties: base.properties.union_prefer_right(pool.properties),
                    destroyed,
                    ..base
                },
            )
        },
        None => if !destroyed {
            m.remove(id)
        } else if m.dom().contains(id) {
            m.insert(id, PoolView { destroyed: true, ..m[id] })
        } else {
            m
        },
    }
}

/// `vs` are the values of `m`, one for each key, in some order.
pub open spec fn lists_values<Q, W>(m: Map<Q, W>, vs: Seq<W>) -> bool {
    exists|ks: Seq<Q>|
        {
            &&& #[trigger] ks.len() == vs.len()
            &&& ks.no_duplicates()
            &&& forall|i: int| 0 <= i < ks.len() ==> m.dom().contains(#[trigger] ks[i]) && m[ks[i]] == vs[i]
            &&& forall|k: Q| m.dom().contains(k) ==> ks.contains(k)
        }
}

pub open spec fn pool_views(v: Seq<Pool>) -> Seq<PoolView> {
    v.map_values(|p: Pool| p.deep_view())
}

pub open spec fn object_views<T: DeepView>(v: Seq<crate::object::ZfsObject<T>>) -> Seq<ObjectView<T::V>> {
    v.map_values(|o: crate::object::ZfsObject<T>| o.deep_view())
}

impl DatasetTree {
    pub closed spec fn dataset_map(&self) -> Map<Seq<char>, DatasetView> {
        self.datasets.deep_view()
    }

    pub closed spec fn pool_map(&self) -> Map<u64, PoolView> {
        pool_view_map(self.pools@)
    }

    /// An empty tree.
    pub fn new() -> (r: DatasetTree)
        ensures
            r.dataset_map() == Map::<Seq<char>, DatasetView>::empty(),
            r.pool_map() == Map::<u64, PoolView>::empty(),
    {
        let r = DatasetTree { datasets: KeyMap::new(), pools: std::collections::HashMap::new() };
        assert(r.pool_map() =~= Map::<u64, PoolView>::empty());
        r
    }

    /// Replaces the datasets by those of a listing.
    pub fn set_datasets(&mut self, d: Vec<ZDataset>)
        ensures
            final(self).dataset_map() == datasets_from(object_views(d@)),
            final(self).pool_map() == old(self).pool_map(),
    {
        let ghost ov = object_views(d@);
        self.datasets.clear();
        let n = d.len();
        assert(ov.take(0) =~= Seq::<ObjectView<()>>::empty());
        for dataset in iter: d
            invariant
                n == ov.len(),
                iter.seq() == d@,
                ov == object_views(d@),
                self.dataset_map() == datasets_from(ov.take(iter.index())),
                self.pool_map() == old(self).pool_map(),
        {
            let ghost i = iter.index();
            let ghost dv = dataset.deep_view();
            assert(dv == ov[i]);
            let name = dataset.name;
            let path = name.clone();
            let key = DatasetId(name.clone());
            self.datasets.insert(
                key,
                Dataset {
                    name,
                    path,
                    parent: None,
                    children: Vec::new(),
                    pool: PoolId(0),
                    properties: dataset.properties,
                },
            );
            proof {
                let t = ov.take(i + 1);
                assert(t.drop_last() =~= ov.take(i));
                assert(ids_view(Seq::<DatasetId>::empty()) =~= Seq::<Seq<char>>::empty());
            }
        }
        assert(ov.take(n as int) =~= ov);
    }

    /// Replaces the pools by those of a listing.
    pub fn set_pools(&mut self, p: Vec<ZPool>)
        ensures
            final(self).pool_map() == pools_from(object_views(p@)),
            final(self).dataset_map() == old(self).dataset_map(),
    {
        let ghost ov = object_views(p@);
        self.pools.clear();
        assert(self.pool_map() =~= Map::<u64, PoolView>::empty());
        let n = p.len();
        assert(ov.take(0) =~= Seq::<ObjectView<PoolInfoView>>::empty());
        for pool in iter: p
            invariant
                n == ov.len(),
                iter.seq() == p@,
                ov == object_views(p@),
                self.pool_map() == pools_from(ov.take(iter.index())),
                self.dataset_map() == old(self).dataset_map(),
        {
            let ghost i = iter.index();
            let ghost pv = pool.deep_view();
            assert(pv == ov[i]);
            let ghost before = self.pool_map();
            let key = pool.inner.pool_guid;
            let guid = PoolId(key);
            let kept = Pool {
                guid,
                name: pool.name,
                properties: pool.properties,
                datasets: Vec::new(),
                destroyed: false,
            };
            proof {
                assert(ids_view(Seq::<DatasetId>::empty()) =~= Seq::<Seq<char>>::empty());
                assert(kept.deep_view() == listed_pool(pv));
            }
            self.pools.insert(key, kept);
            proof {
                let t = ov.take(i + 1);
                assert(t.drop_last() =~= ov.take(i));
                assert(self.pool_map() =~= before.insert(key, listed_pool(pv)));
            }
        }
        assert(ov.take(n as int) =~= ov);
    }

    /// Applies what was fetched for one dataset.
    pub fn delta_dataset(&mut self, id: DatasetId, dataset: Option<ZDataset>)
        ensures
            final(self).dataset_map() == delta_dataset_spec(
                old(self).dataset_map(),
                id@,
                dataset.deep_view(),
            ),
            final(self).pool_map() == old(self).pool_map(),
    {
        match dataset {
            Some(ds) => {
                let ghost props = ds.properties.deep_view();
                let mut d = match self.datasets.remove(&id) {
                    Some(d) => d,
                    None => Dataset {
                        properties: KeyMap::new(),
                        name: ds.name,
                        path: String::new(),
                        parent: None,
                        children: Vec::new(),
                        pool: PoolId(0),
                    },
                };
                d.properties.extend(ds.properties);
                proof {
                    assert(ids_view(Seq::<DatasetId>::empty()) =~= Seq::<Seq<char>>::empty());
                }
                self.datasets.insert(id, d);
                proof {
                    let m = old(self).dataset_map();
                    assert(self.dataset_map() =~= delta_dataset_spec(
                        m,
                        id@,
                        Some(ds.deep_view()),
                    ));
                }
            },
            None => {
                self.datasets.remove(&id);
            },
        }
    }

    /// Applies what was fetched for one pool; `destroyed` tells whether the pool was
    /// destroyed.
    pub fn delta_pool(&mut self, id: PoolId, pool: Option<ZPool>, destroyed: bool)
        ensures
            final(self).pool_map() == delta_pool_spec(
                old(self).pool_map(),
                id@,
                pool.deep_view(),
                destroyed,
            ),
            final(self).dataset_map() == old(self).dataset_map(),
    {
        let key = id.guid();
        let ghost m0 = self.pool_map();
        match pool {
            Some(p) => {
                let ghost pv = p.deep_view();
                let mut kept = match self.pools.remove(&key) {
                    Some(k) => k,
                    None => Pool {
                        guid: id,
                        name: p.name,
                        datasets: Vec::new(),
                        destroyed,
                        properties: KeyMap::new(),
                    },
                };
                kept.properties.extend(p.properties);
                kept.destroyed = destroyed;
                proof {
                    assert(ids_view(Seq::<DatasetId>::empty()) =~= Seq::<Seq<char>>::empty());
                }
                self.pools.insert(key, kept);
                proof {
                    assert(self.pool_map() =~= delta_pool_spec(m0, id@, Some(pv), destroyed));
                }
            },
            None => {
                if !destroyed {
                    self.pools.remove(&key);
                    assert(self.pool_map() =~= m0.remove(key));
                } else {
                    match self.pools.remove(&key) {
                        Some(k) => {
                            let mut k = k;
                            k.destroyed = destroyed;
                            self.pools.insert(key, k);
                            assert(self.pool_map() =~= m0.insert(key, PoolView { destroyed: true, ..m0[key] }));
                        },
                        None => {
                            assert(self.pool_map() =~= m0);
                        },
                    }
                }
            },
        }
    }

    /// Copies of all pools, each once.
    pub fn get_pools(&self) -> (r: Vec<Pool>)
        ensures
            lists_values(self.pool_map(), pool_views(r@)),
    {
        let ghost m = self.pools@;
        let ghost v = vstd::std_specs::iter::IteratorSpec::remaining(
            &vstd::std_specs::hash::spec_hash_map_iter(&self.pools),
        );
        let mut r: Vec<Pool> = Vec::new();
        for kv in it: self.pools.iter()
            invariant
                it.seq() == v,
                pool_views(r@) == it.seq().take(it.index()).map_values(
                    |p: (&u64, &Pool)| p.1.deep_view(),
                ),
        {
            let ghost before = r@;
            let copy = kv.1.duplicate();
            r.push(copy);
            proof {
                assert(pool_views(r@) =~= pool_views(before).push(copy.deep_view()));
                assert(it.seq().take(it.index() + 1) =~= it.seq().take(it.index() as int).push(
                    it.seq()[it.index() as int],
                ));
            }
        }
        proof {
            let vs = v.map_values(|p: (&u64, &Pool)| p.1.deep_view());
            assert(v.take(v.len() as int) =~= v);
            assert(pool_views(r@) == vs);
            let ks = v.map_values(|p: (&u64, &Pool)| *p.0);
            let mm = self.pool_map();
            assert forall|i: int, j: int| 0 <= i < ks.len() && 0 <= j < ks.len() && i != j implies ks[i]
                != ks[j] by {
                if ks[i] == ks[j] {
                    assert(m.contains_key(*v[i].0) && m[*v[i].0] == *v[i].1);
                    assert(m.contains_key(*v[j].0) && m[*v[j].0] == *v[j].1);
                    assert(v[i] == v[j]);
                }
            }
            assert forall|i: int| 0 <= i < ks.len() implies mm.dom().contains(#[trigger] ks[i])
                && mm[ks[i]] == vs[i] by {
                assert(m.contains_key(*v[i].0) && m[*v[i].0] == *v[i].1);
            }
            assert forall|k: u64| mm.dom().contains(k) implies ks.contains(k) by {
                assert(m.contains_key(k));
                assert(v.contains((&k, &m[k])));
                let i = choose|i: int| 0 <= i < v.len() && v[i] == (&k, &m[k]);
                assert(ks[i] == k);
            }
            assert(ks.len() == vs.len());
        }
        r
    }

    /// A copy of a pool named `name`, if there is one.
    pub fn get_pool(&self, name: &str) -> (r: Option<Pool>)
        ensures
            r is Some == exists|k: u64| #[trigger]
                self.pool_map().dom().contains(k) && self.pool_map()[k].name == name@,
            r is Some ==> exists|k: u64| #[trigger]
                self.pool_map().dom().contains(k) && self.pool_map()[k] == r->0.deep_view(),
            r is Some ==> r->0.name@ == name@,
    {
        let ghost m = self.pools@;
        let ghost v = vstd::std_specs::iter::IteratorSpec::remaining(
            &vstd::std_specs::hash::spec_hash_map_iter(&self.pools),
        );
        for kv in it: self.pools.iter()
            invariant
                it.seq() == v,
                m == self.pools@,
                forall|j: int| 0 <= j < it.index() ==> #[trigger] v[j].1.name@ != name@,
        {
            let ghost i = it.index();
            if crate::text::str_equal(kv.1.name.as_str(), name) {
                let copy = kv.1.duplicate();
                proof {
                    assert(kv == v[i]);
                    assert(m.contains_key(*v[i].0) && m[*v[i].0] == *v[i].1);
                    let k = *v[i].0;
                    assert(self.pool_map().dom().contains(k));
                    assert(self.pool_map()[k] == copy.deep_view());
                }
                return Some(copy);
            }
        }
        proof {
            assert forall|k: u64| #[trigger]
                self.pool_map().dom().contains(k) implies self.pool_map()[k].name != name@ by {
                assert(m.contains_key(k));
                assert(v.contains((&k, &m[k])));
                let j = choose|j: int| 0 <= j < v.len() && v[j] == (&k, &m[k]);
                assert(v[j].1.name@ != name@);
            }
        }
        None
    }

    /// A copy of the dataset `name`, if there is one.
    pub fn get_dataset(&self, name: &str) -> (r: Option<Dataset>)
        ensures
            r.deep_view() == (if self.dataset_map().dom().contains(name@) {
                Some(self.dataset_map()[name@])
            } else {
                None
            }),
    {
        let id = DatasetId(crate::text::to_owned_string(name));
        match self.datasets.get(&id) {
            Some(d) => Some(d.duplicate()),
            None => None,
        }
    }
}

} // verus!

verus! {

/// After an update that fetched a dataset, the dataset is kept and holds every fetched
/// property with its fetched value.
pub proof fn law_dataset_update_visible(
    m: Map<Seq<char>, DatasetView>,
    id: Seq<char>,
    ds: ObjectView<()>,
    k: Seq<char>,
)
    requires
        ds.properties.dom().contains(k),
    ensures
        delta_dataset_spec(m, id, Some(ds)).dom().contains(id),
        delta_dataset_spec(m, id, Some(ds))[id].properties.dom().contains(k),
        delta_dataset_spec(m, id, Some(ds))[id].properties[k] == ds.properties[k],
{
}

/// After an update that fetched a dataset, every property it had before and that the
/// fetch did not bring is still there.
pub proof fn law_dataset_update_keeps(
    m: Map<Seq<char>, DatasetView>,
    id: Seq<char>,
    ds: ObjectView<()>,
    k: Seq<char>,
)
    requires
        m.dom().contains(id),
        m[id].properties.dom().contains(k),
        !ds.properties.dom().contains(k),
    ensures
        delta_dataset_spec(m, id, Some(ds))[id].properties[k] == m[id].properties[k],
{
}

/// A dataset that a fetch no longer finds is forgotten.
pub proof fn law_dataset_vanishes(m: Map<Seq<char>, DatasetView>, id: Seq<char>)
    ensures
        !delta_dataset_spec(m, id, None).dom().contains(id),
{
}

/// An update of one dataset leaves every other dataset as it was.
pub proof fn law_dataset_update_frame(
    m: Map<Seq<char>, DatasetView>,
    id: Seq<char>,
    d: Option<ObjectView<()>>,
    other: Seq<char>,
)
    requires
        other != id,
    ensures
        delta_dataset_spec(m, id, d).dom().contains(other) == m.dom().contains(other),
        m.dom().contains(other) ==> delta_dataset_spec(m, id, d)[other] == m[other],
{
}

/// After an update that fetched a pool, the pool is kept with the given destroyed flag
/// and every fetched property with its fetched value.
pub proof fn law_pool_update_visible(
    m: Map<u64, PoolView>,
    id: u64,
    p: ObjectView<PoolInfoView>,
    destroyed: bool,
    k: Seq<char>,
)
    ensures
        delta_pool_spec(m, id, Some(p), destroyed).dom().contains(id),
        delta_pool_spec(m, id, Some(p), destroyed)[id].destroyed == destroyed,
        p.properties.dom().contains(k) ==> delta_pool_spec(m, id, Some(p), destroyed)[
            id
        ].properties[k] == p.properties[k],
{
}

/// After an update that fetched a pool that was kept, every property it had before and
/// that the fetch did not bring is still there with its old value, and its name and
/// datasets stay as they were.
pub proof fn law_pool_update_keeps(
    m: Map<u64, PoolView>,
    id: u64,
    p: ObjectView<PoolInfoView>,
    destroyed: bool,
    k: Seq<char>,
)
    requires
        m.dom().contains(id),
        m[id].properties.dom().contains(k),
        !p.properties.dom().contains(k),
    ensures
        delta_pool_spec(m, id, Some(p), destroyed)[id].properties.dom().contains(k),
        delta_pool_spec(m, id, Some(p), destroyed)[id].properties[k] == m[id].properties[k],
        delta_pool_spec(m, id, Some(p), destroyed)[id].name == m[id].name,
        delta_pool_spec(m, id, Some(p), destroyed)[id].datasets == m[id].datasets,
{
}

/// After an update that fetched a pool, its properties are exactly those it had and
/// those fetched, the fetched value winning.
pub proof fn law_pool_update_properties(
    m: Map<u64, PoolView>,
    id: u64,
    p: ObjectView<PoolInfoView>,
    destroyed: bool,
    k: Seq<char>,
)
    ensures
        delta_pool_spec(m, id, Some(p), destroyed)[id].properties.dom().contains(k) == (
        p.properties.dom().contains(k) || (m.dom().contains(id) && m[id].properties.dom().contains(
            k,
        ))),
{
}

/// An exported pool is forgotten.
pub proof fn law_pool_export_forgets(m: Map<u64, PoolView>, id: u64)
    ensures
        !delta_pool_spec(m, id, None, false).dom().contains(id),
{
}

/// A destroyed pool that was kept stays, marked destroyed, with everything else as it
/// was; one that was not kept stays unknown.
pub proof fn law_pool_destroy_marks(m: Map<u64, PoolView>, id: u64)
    ensures
        delta_pool_spec(m, id, None, true).dom().contains(id) == m.dom().contains(id),
        m.dom().contains(id) ==> delta_pool_spec(m, id, None, true)[id] == (PoolView {
            destroyed: true,
            ..m[id]
        }),
{
}

/// An update of one pool leaves every other pool as it was.
pub proof fn law_pool_update_frame(
    m: Map<u64, PoolView>,
    id: u64,
    p: Option<ObjectView<PoolInfoView>>,
    destroyed: bool,
    other: u64,
)
    requires
        other != id,
    ensures
        delta_pool_spec(m, id, p, destroyed).dom().contains(other) == m.dom().contains(other),
        m.dom().contains(other) ==> delta_pool_spec(m, id, p, destroyed)[other] == m[other],
{
}

/// After a listing replaces the pools, exactly the listed GUIDs are kept, each as the
/// last listed pool with that GUID gives it.
pub proof fn law_listed_pools(ps: Seq<ObjectView<PoolInfoView>>, i: int)
    requires
        0 <= i < ps.len(),
        forall|j: int| i < j < ps.len() ==> #[trigger] ps[j].inner.pool_guid != ps[i].inner.pool_guid,
    ensures
        pools_from(ps).dom().contains(ps[i].inner.pool_guid),
        pools_from(ps)[ps[i].inner.pool_guid] == listed_pool(ps[i]),
        pools_from(ps)[ps[i].inner.pool_guid].guid == ps[i].inner.pool_guid,
        pools_from(ps)[ps[i].inner.pool_guid].name == ps[i].name,
        pools_from(ps)[ps[i].inner.pool_guid].properties == ps[i].properties,
        pools_from(ps)[ps[i].inner.pool_guid].datasets.len() == 0,
        !pools_from(ps)[ps[i].inner.pool_guid].destroyed,
    decreases ps.len(),
{
    if i < ps.len() - 1 {
        let q = ps.drop_last();
        assert forall|j: int| i < j < q.len() implies #[trigger] q[j].inner.pool_guid
            != q[i].inner.pool_guid by {
            assert(q[j] == ps[j]);
        }
        law_listed_pools(q, i);
        assert(ps.last().inner.pool_guid != ps[i].inner.pool_guid);
    }
}

/// After a listing replaces the pools, no pool is kept whose GUID was not listed.
pub proof fn law_listed_pools_only(ps: Seq<ObjectView<PoolInfoView>>, guid: u64)
    requires
        pools_from(ps).dom().contains(guid),
    ensures
        exists|i: int| 0 <= i < ps.len() && #[trigger] ps[i].inner.pool_guid == guid,
    decreases ps.len(),
{
    if ps.last().inner.pool_guid != guid {
        law_listed_pools_only(ps.drop_last(), guid);
        let i = choose|i: int| 0 <= i < ps.drop_last().len() && #[trigger] ps.drop_last()[i].inner.pool_guid == guid;
        assert(ps[i] == ps.drop_last()[i]);
    } else {
        assert(ps[ps.len() - 1].inner.pool_guid == guid);
    }
}

/// After a listing replaces the datasets, each listed name is kept as the last listed
/// dataset with that name gives it.
pub proof fn law_listed_datasets(ds: Seq<ObjectView<()>>, i: int)
    requires
        0 <= i < ds.len(),
        forall|j: int| i < j < ds.len() ==> #[trigger] ds[j].name != ds[i].name,
    ensures
        datasets_from(ds).dom().contains(ds[i].name),
        datasets_from(ds)[ds[i].name] == listed_dataset(ds[i]),
        datasets_from(ds)[ds[i].name].name == ds[i].name,
        datasets_from(ds)[ds[i].name].path == ds[i].name,
        datasets_from(ds)[ds[i].name].properties == ds[i].properties,
        datasets_from(ds)[ds[i].name].parent is None,
        datasets_from(ds)[ds[i].name].children.len() == 0,
    decreases ds.len(),
{
    if i < ds.len() - 1 {
        let q = ds.drop_last();
        assert forall|j: int| i < j < q.len() implies #[trigger] q[j].name != q[i].name by {
            assert(q[j] == ds[j]);
        }
        law_listed_datasets(q, i);
        assert(ds.last().name != ds[i].name);
    }
}

} // verus!

