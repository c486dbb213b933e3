//! Pools and datasets as `zfs`/`zpool` list them, with their properties.
use vstd::prelude::*;

use crate::error::{result_view, Error, ErrorView};
use crate::scalar::{FromZfs, ScalarView, ZfsScalar};
use crate::strmap::{KeyMap, MapKey, StrMap};

verus! {

/// Values that can be copied with their view kept.
pub trait Duplicate: DeepView + Sized {
    fn duplicate(&self) -> (r: Self)
        ensures
            r.deep_view() == self.deep_view(),
    ;
}

impl Duplicate for ZfsScalar {
    fn duplicate(&self) -> (r: Self) {
        ZfsScalar::duplicate(self)
    }
}

impl Duplicate for String {
    fn duplicate(&self) -> (r: Self) {
        self.clone()
    }
}

impl<K: MapKey, V: Duplicate> KeyMap<K, V> {
    /// A copy with the same entries in the same order.
    pub fn duplicate_map(&self) -> (r: Self)
        ensures
            r.deep_view() == self.deep_view(),
            r.entry_seq() == self.entry_seq(),
    {
        let mut r = KeyMap::new();
        let n = self.len();
        let ghost e = self.entry_seq();
        let mut i: usize = 0;
        proof {
            assert(r.entry_seq() =~= e.take(0));
        }
        while i < n
            invariant
                i <= n,
                n == e.len(),
                e == self.entry_seq(),
                crate::strmap::keys_distinct(e),
                r.entry_seq() == e.take(i as int),
            decreases n - i,
        {
            let (k, v) = self.entry_at(i);
            let rn = r.len();
            proof {
                if r.deep_view().dom().contains(e[i as int].0) {
                    let j = choose|j: int|
                        0 <= j < r.entry_seq().len() && #[trigger] r.entry_seq()[j].0
                            == e[i as int].0;
                    assert(e[j] == r.entry_seq()[j]);
                }
            }
            r.push_new(k.duplicate_key(), v.duplicate());
            proof {
                assert(e.take(i + 1) =~= e.take(i as int).push(e[i as int]));
            }
            i = i + 1;
        }
        proof {
            assert(e.take(n as int) =~= e);
        }
        let _ = r.len();
        r
    }
}

/// Where a property's value comes from.
#[derive(Debug, Clone)]
pub enum PropertySource {
    NoSource,
    Default,
    Local,
    Inherited { from: String },
    Unknown { data: String },
}

pub enum SourceView {
    NoSource,
    Default,
    Local,
    Inherited { from: Seq<char> },
    Unknown { data: Seq<char> },
}

impl DeepView for PropertySource {
    type V = SourceView;

    open spec fn deep_view(&self) -> SourceView {
        match self {
            PropertySource::NoSource => SourceView::NoSource,
            PropertySource::Default => SourceView::Default,
            PropertySource::Local => SourceView::Local,
            PropertySource::Inherited { from } => SourceView::Inherited { from: from@ },
            PropertySource::Unknown { data } => SourceView::Unknown { data: data@ },
        }
    }
}

impl Duplicate for PropertySource {
    fn duplicate(&self) -> (r: Self) {
        match self {
            PropertySource::NoSource => PropertySource::NoSource,
            PropertySource::Default => PropertySource::Default,
            PropertySource::Local => PropertySource::Local,
            PropertySource::Inherited { from } => PropertySource::Inherited { from: from.clone() },
            PropertySource::Unknown { data } => PropertySource::Unknown { data: data.clone() },
        }
    }
}

/// A property: its value and where the value comes from.
#[derive(Debug, Clone)]
pub struct Property<T> {
    pub value: T,
    pub source: PropertySource,
}

pub struct PropertyView<V> {
    pub value: V,
    pub source: SourceView,
}

impl<T: DeepView> DeepView for Property<T> {
    type V = PropertyView<T::V>;

    open spec fn deep_view(&self) -> PropertyView<T::V> {
        PropertyView { value: self.value.deep_view(), source: self.source.deep_view() }
    }
}

impl<T: Duplicate> Duplicate for Property<T> {
    fn duplicate(&self) -> (r: Self) {
        Property { value: self.value.duplicate(), source: self.source.duplicate() }
    }
}

/// The value of a property as `T`.
pub open spec fn property_value_spec<T: FromZfs>(p: PropertyView<ScalarView>) -> Result<
    T::V,
    ErrorView,
> {
    T::from_scalar_spec(p.value)
}

impl<T: FromZfs> Property<T> {
    /// Reads a property whose value is a raw scalar, converting the value to `T`; the
    /// source is kept. A failed conversion is the error.
    pub fn from_raw(value: ZfsScalar, source: PropertySource) -> (r: Result<Property<T>, Error>)
        ensures
            match r {
                Ok(p) => T::from_scalar_spec(value.deep_view()) == Ok::<T::V, ErrorView>(
                    p.value.deep_view(),
                ) && p.source.deep_view() == source.deep_view(),
                Err(e) => T::from_scalar_spec(value.deep_view()) == Err::<T::V, ErrorView>(
                    e.deep_view(),
                ),
            },
    {
        match T::from_scalar(value) {
            Ok(v) => Ok(Property { value: v, source }),
            Err(e) => Err(e),
        }
    }
}

/// The state of a pool as `zpool list` reports it.
#[derive(Debug, Clone)]
pub struct Pool {
    pub state: String,
    pub pool_guid: u64,
    pub txg: u64,
    pub spa_version: u64,
    pub zpl_version: u64,
}

pub struct PoolInfoView {
    pub state: Seq<char>,
    pub pool_guid: u64,
    pub txg: u64,
    pub spa_version: u64,
    pub zpl_version: u64,
}

impl DeepView for Pool {
    type V = PoolInfoView;

    open spec fn deep_view(&self) -> PoolInfoView {
        PoolInfoView {
            state: self.state@,
            pool_guid: self.pool_guid,
            txg: self.txg,
            spa_version: self.spa_version,
            zpl_version: self.zpl_version,
        }
    }
}

/// What `zfs list` reports of a dataset beyond its name and properties: nothing.
#[derive(Debug, Clone)]
pub struct Dataset {}

impl DeepView for Dataset {
    type V = ();

    open spec fn deep_view(&self) -> () {
        ()
    }
}

/// The properties of a pool or dataset, by name.
pub type Properties = StrMap<Property<ZfsScalar>>;

pub type PropertiesView = Map<Seq<char>, PropertyView<ScalarView>>;

/// A pool or dataset as listed: its name, its type, what its kind reports, and its
/// properties.
#[derive(Debug)]
pub struct ZfsObject<T> {
    pub name: String,
    pub kind: String,
    pub inner: T,
    pub properties: Properties,
}

pub struct ObjectView<V> {
    pub name: Seq<char>,
    pub kind: Seq<char>,
    pub inner: V,
    pub properties: PropertiesView,
}

impl<T: DeepView> DeepView for ZfsObject<T> {
    type V = ObjectView<T::V>;

    open spec fn deep_view(&self) -> ObjectView<T::V> {
        ObjectView {
            name: self.name@,
            kind: self.kind@,
            inner: self.inner.deep_view(),
            properties: self.properties.deep_view(),
        }
    }
}

pub type ZPool = ZfsObject<Pool>;

pub type ZDataset = ZfsObject<Dataset>;

/// `ZDataset::property`: `None` when the property is not there, else its value as `T`.
pub open spec fn property_spec<T: FromZfs>(props: PropertiesView, name: Seq<char>) -> Result<
    Option<T::V>,
    ErrorView,
> {
    if props.dom().contains(name) {
        match T::from_scalar_spec(props[name].value) {
            Ok(x) => Ok(Some(x)),
            Err(e) => Err(e),
        }
    } else {
        Ok(None)
    }
}

impl<T> ZfsObject<T> {
    /// The property `name` as `T`, if the object has it.
    pub fn property<U: FromZfs>(&self, name: &str) -> (r: Result<Option<U>, Error>)
        ensures
            result_view(r) == property_spec::<U>(self.properties.deep_view(), name@),
    {
        let key = crate::text::to_owned_string(name);
        match self.properties.get(&key) {
            Some(p) => match U::from_scalar(p.value.duplicate()) {
                Ok(x) => Ok(Some(x)),
                Err(e) => Err(e),
            },
            None => Ok(None),
        }
    }

    /// Takes in the property `name` as fetched anew (`fetched` is the object as `zfs get`
    /// reported it, if it reported one): when it holds the property, the property replaces
    /// the one kept here and its value is returned as `U`; otherwise nothing changes.
    pub fn refresh_property_with<U: FromZfs, S>(
        &mut self,
        name: &str,
        fetched: Option<ZfsObject<S>>,
    ) -> (r: Result<Option<U>, Error>)
        ensures
            match fetched {
                Some(d) if d.properties.deep_view().dom().contains(name@) => {
                    &&& final(self).properties.deep_view() == old(
                        self,
                    ).properties.deep_view().insert(name@, d.properties.deep_view()[name@])
                    &&& result_view(r) == match U::from_scalar_spec(
                        d.properties.deep_view()[name@].value,
                    ) {
                        Ok(x) => Ok(Some(x)),
                        Err(e) => Err(e),
                    }
                },
                _ => {
                    &&& final(self).properties.deep_view() == old(self).properties.deep_view()
                    &&& result_view(r) == Ok::<Option<U::V>, ErrorView>(None)
                },
            },
            final(self).name == old(self).name,
            final(self).kind == old(self).kind,
            final(self).inner == old(self).inner,
    {
        let key = crate::text::to_owned_string(name);
        let prop = match fetched {
            Some(d) => {
                let mut props = d.properties;
                props.remove(&key)
            },
            None => None,
        };
        match prop {
            Some(p) => {
                let v = p.value.duplicate();
                self.properties.insert(key, p);
                match U::from_scalar(v) {
                    Ok(x) => Ok(Some(x)),
                    Err(e) => Err(e),
                }
            },
            None => Ok(None),
        }
    }
}

pub open spec fn is_nonempty() -> spec_fn(Seq<char>) -> bool {
    |p: Seq<char>| p.len() > 0
}

/// The names of the listed properties that are not empty.
pub open spec fn nonempty_names(ps: Seq<Seq<char>>) -> Seq<Seq<char>> {
    ps.filter(is_nonempty())
}

/// The names joined by commas (`Itertools::join(",")`).
pub open spec fn join_commas(ps: Seq<Seq<char>>) -> Seq<char>
    decreases ps.len(),
{
    if ps.len() == 0 {
        seq![]
    } else if ps.len() == 1 {
        ps[0]
    } else {
        join_commas(ps.drop_last()) + seq![','] + ps.last()
    }
}

/// The property list that `zfs get`/`zpool get` is asked for: the non-empty names joined
/// by commas, or `all` when there are none.
pub open spec fn props_argument_spec(ps: Seq<Seq<char>>) -> Seq<char> {
    if nonempty_names(ps).len() == 0 {
        "all"@
    } else {
        join_commas(nonempty_names(ps))
    }
}

proof fn lemma_join_nonempty(ps: Seq<Seq<char>>)
    requires
        ps.len() > 0,
        forall|i: int| 0 <= i < ps.len() ==> #[trigger] ps[i].len() > 0,
    ensures
        join_commas(ps).len() > 0,
    decreases ps.len(),
{
    if ps.len() > 1 {
        assert(ps.last().len() > 0);
    } else {
        assert(ps[0].len() > 0);
    }
}

/// The property list for `zfs get` and `zpool get`.
pub fn props_argument(props: &Vec<&str>) -> (r: String)
    ensures
        r@ == props_argument_spec(crate::text::views(props@)),
{
    let ghost ps = crate::text::views(props@);
    let mut out = String::new();
    let mut count: usize = 0;
    let n = props.len();
    let mut i: usize = 0;
    proof {
        assert(ps.take(0) =~= Seq::<Seq<char>>::empty());
        assert(ps.take(0).filter(is_nonempty()) =~= Seq::<Seq<char>>::empty());
    }
    while i < n
        invariant
            i <= n,
            n == props@.len(),
            ps == crate::text::views(props@),
            ps.len() == n,
            count == nonempty_names(ps.take(i as int)).len(),
            out@ == join_commas(nonempty_names(ps.take(i as int))),
        decreases n - i,
    {
        let p = props[i];
        let ghost before = nonempty_names(ps.take(i as int));
        proof {
            assert(ps[i as int] == p@);
            assert(ps.take(i + 1) =~= ps.take(i as int).push(p@));
            ps.take(i as int).lemma_filter_push(p@, is_nonempty());
        }
        if p.unicode_len() > 0 {
            if count > 0 {
                crate::text::push_char(&mut out, ',');
            }
            out.append(p);
            proof {
                let after = before.push(p@);
                assert(after.drop_last() =~= before);
                if count == 0 {
                    assert(out@ =~= after[0]);
                }
            }
            count = count + 1;
        }
        i = i + 1;
    }
    proof {
        assert(ps.take(n as int) =~= ps);
        let ne = nonempty_names(ps);
        assert forall|j: int| 0 <= j < ne.len() implies #[trigger] ne[j].len() > 0 by {
            ps.lemma_filter_pred(is_nonempty(), j);
        }
        if ne.len() > 0 {
            lemma_join_nonempty(ne);
        }
    }
    if count == 0 {
        proof {
            reveal_strlit("all");
        }
        crate::text::to_owned_string("all")
    } else {
        out
    }
}

/// The object called `name` out of a listing, if the command listed anything.
pub fn take_named<T>(listing: Option<StrMap<ZfsObject<T>>>, name: &str) -> (r: Option<
    ZfsObject<T>,
>) where T: DeepView
    ensures
        match listing {
            Some(m) => r.deep_view() == (if m.deep_view().dom().contains(name@) {
                Some(m.deep_view()[name@])
            } else {
                None
            }),
            None => r is None,
        },
{
    match listing {
        Some(m) => {
            let mut m = m;
            m.remove(&crate::text::to_owned_string(name))
        },
        None => None,
    }
}

} // verus!
