use vstd::prelude::*;

verus! {

/// The address of a link field: the handle of the object that embeds it
/// and the index of the field among that object's link fields.
#[derive(Clone, Copy, Debug, PartialEq, Eq, Structural)]
pub struct Place {
    pub obj: usize,
    pub field: usize,
}

/// What a connected link records: where it sits itself, and where its
/// counterpart sits.
#[derive(Clone, Copy, Debug, PartialEq, Eq, Structural)]
pub struct LinkData {
    pub local: Place,
    pub target: Place,
}

/// One endpoint of a symmetric relationship between two objects.
pub struct Link {
    data: Option<LinkData>,
}

impl Default for Link {
    fn default() -> (r: Link)
        ensures
            r@ is None,
    {
        Link { data: None }
    }
}

impl Link {
    /// The state of the link: `None` when disconnected.
    pub closed spec fn view(&self) -> Option<LinkData> {
        self.data
    }

    /// Creates a disconnected link.
    pub fn new() -> (r: Link)
        ensures
            r@ is None,
    {
        Link { data: None }
    }

    /// Whether the link is connected.
    pub fn connected(&self) -> (r: bool)
        ensures
            r == self@ is Some,
    {
        self.data.is_some()
    }

    /// The handle of the object that embeds this link, when connected.
    pub fn owner_ptr(&self) -> (r: Option<usize>)
        ensures
            r == (match self@ {
                Some(d) => Some(d.local.obj),
                None => None,
            }),
    {
        match self.data {
            Some(d) => Some(d.local.obj),
            None => None,
        }
    }

    /// The handle of the object that embeds this link, when connected; the
    /// form used by callers that go on to change that object.
    pub fn owner_mut_ptr(&self) -> (r: Option<usize>)
        ensures
            r == (match self@ {
                Some(d) => Some(d.local.obj),
                None => None,
            }),
    {
        self.owner_ptr()
    }

    /// The handle of the object that embeds the counterpart, when connected.
    pub fn remote_owner_ptr(&self) -> (r: Option<usize>)
        ensures
            r == (match self@ {
                Some(d) => Some(d.target.obj),
                None => None,
            }),
    {
        match self.data {
            Some(d) => Some(d.target.obj),
            None => None,
        }
    }

    /// The handle of the object that embeds the counterpart, when connected;
    /// the form used by callers that go on to change that object.
    pub fn remote_owner_mut_ptr(&self) -> (r: Option<usize>)
        ensures
            r == (match self@ {
                Some(d) => Some(d.target.obj),
                None => None,
            }),
    {
        self.remote_owner_ptr()
    }
}

/// The link states after `at` is disconnected: when `at` is connected, both
/// it and its counterpart become disconnected.
pub open spec fn disconnected(m: Map<Place, Option<LinkData>>, at: Place) -> Map<Place, Option<LinkData>> {
    match m[at] {
        Some(d) => m.insert(d.target, None).insert(at, None),
        None => m,
    }
}

/// The link states after `a` and `b` are connected: each is first
/// disconnected from whatever it was connected to, then each refers to the
/// other.
pub open spec fn connected(m: Map<Place, Option<LinkData>>, a: Place, b: Place) -> Map<Place, Option<LinkData>> {
    disconnected(disconnected(m, a), b)
        .insert(a, Some(LinkData { local: a, target: b }))
        .insert(b, Some(LinkData { local: b, target: a }))
}

/// The link states after the counterparts of `a` and `b` are exchanged. The
/// counterparts themselves are left as they were.
pub open spec fn swapped(m: Map<Place, Option<LinkData>>, a: Place, b: Place) -> Map<Place, Option<LinkData>> {
    match (m[a], m[b]) {
        (Some(da), Some(db)) => m
            .insert(a, Some(LinkData { local: a, target: db.target }))
            .insert(b, Some(LinkData { local: b, target: da.target })),
        _ => m,
    }
}

/// Every connected link knows its own place, and its counterpart's place
/// exists.
pub open spec fn links_wf(m: Map<Place, Option<LinkData>>) -> bool {
    forall|p: Place|
        #[trigger] m.dom().contains(p) && m[p] is Some ==> m[p]->0.local == p && m.dom().contains(
            m[p]->0.target,
        )
}

/// Every connected link's counterpart refers back to it.
pub open spec fn links_symmetric(m: Map<Place, Option<LinkData>>) -> bool {
    forall|p: Place|
        #[trigger] m.dom().contains(p) && m[p] is Some ==> m[m[p]->0.target] == Some(
            LinkData { local: m[p]->0.target, target: p },
        )
}

/// An object of the store: its value and its link fields.
struct Obj<T> {
    value: T,
    links: Vec<Link>,
}

/// The objects that links connect, each reached by its handle.
pub struct Store<T> {
    objs: Vec<Obj<T>>,
}

impl<T> Store<T> {
    /// The objects' values, by handle.
    pub closed spec fn values(&self) -> Seq<T> {
        self.objs@.map_values(|o: Obj<T>| o.value)
    }

    /// Whether `p` addresses a link field of the store.
    pub closed spec fn is_place(&self, p: Place) -> bool {
        p.obj < self.objs@.len() && p.field < self.objs@[p.obj as int].links@.len()
    }

    /// The state of the link at each place of the store.
    pub closed spec fn links(&self) -> Map<Place, Option<LinkData>> {
        Map::new(|p: Place| self.is_place(p), |p: Place| self.objs@[p.obj as int].links@[p.field as int]@)
    }

    /// The store's link states are well formed.
    pub open spec fn wf(&self) -> bool {
        links_wf(self.links())
    }

    /// Creates a store with no objects.
    pub fn new() -> (r: Store<T>)
        ensures
            r.wf(),
            r.values() == Seq::<T>::empty(),
            r.links() == Map::<Place, Option<LinkData>>::empty(),
    {
        let r = Store { objs: Vec::new() };
        assert(r.links() =~= Map::<Place, Option<LinkData>>::empty());
        assert(r.values() =~= Seq::<T>::empty());
        r
    }

    /// The number of objects in the store.
    pub fn len(&self) -> (r: usize)
        ensures
            r == self.values().len(),
    {
        self.objs.len()
    }

    /// Adds an object with `n_links` disconnected link fields and returns its
    /// handle.
    pub fn add(&mut self, value: T, n_links: usize) -> (h: usize)
        requires
            old(self).wf(),
            old(self).values().len() < usize::MAX,
        ensures
            final(self).wf(),
            h == old(self).values().len(),
            final(self).values() == old(self).values().push(value),
            final(self).links() == old(self).links().union_prefer_right(
                Map::new(|p: Place| p.obj == h && p.field < n_links, |p: Place| None::<LinkData>),
            ),
    {
        let mut links: Vec<Link> = Vec::new();
        let mut i: usize = 0;
        while i < n_links
            invariant
                i <= n_links,
                links@.len() == i,
                forall|j: int| 0 <= j < i ==> #[trigger] links@[j]@ is None,
            decreases n_links - i,
        {
            links.push(Link::new());
            i = i + 1;
        }
        let h = self.objs.len();
        self.objs.push(Obj { value, links });
        assert(self.values() =~= old(self).values().push(value));
        assert(self.links() =~= old(self).links().union_prefer_right(
            Map::new(|p: Place| p.obj == h && p.field < n_links, |p: Place| None::<LinkData>),
        ));
        h
    }

    /// Whether `p` addresses a link field of the store.
    pub fn has_place(&self, p: Place) -> (r: bool)
        ensures
            r == self.links().dom().contains(p),
    {
        p.obj < self.objs.len() && p.field < self.objs[p.obj].links.len()
    }

    /// The value of the object with handle `h`.
    pub fn value(&self, h: usize) -> (r: &T)
        requires
            h < self.values().len(),
        ensures
            *r == self.values()[h as int],
    {
        &self.objs[h].value
    }

    /// The link at place `p`.
    pub fn link(&self, p: Place) -> (r: &Link)
        requires
            self.links().dom().contains(p),
        ensures
            r@ == self.links()[p],
    {
        &self.objs[p.obj].links[p.field]
    }

    fn set_state(&mut self, p: Place, d: Option<LinkData>)
        requires
            old(self).links().dom().contains(p),
        ensures
            final(self).values() == old(self).values(),
            final(self).links() == old(self).links().insert(p, d),
    {
        self.objs[p.obj].links[p.field].data = d;
        assert(self.values() =~= old(self).values());
        assert(self.links() =~= old(self).links().insert(p, d));
    }
}

impl Link {
    /// Disconnects the link at `at` and, when it was connected, its
    /// counterpart too. Does nothing to a disconnected link.
    pub fn disconnect<T>(store: &mut Store<T>, at: Place)
        requires
            old(store).wf(),
            old(store).links().dom().contains(at),
        ensures
            final(store).wf(),
            final(store).values() == old(store).values(),
            final(store).links() == disconnected(old(store).links(), at),
            links_symmetric(old(store).links()) ==> links_symmetric(final(store).links()),
    {
        proof {
            if links_symmetric(store.links()) {
                lemma_disconnect_symmetric(store.links(), at);
            }
        }
        let cur = store.objs[at.obj].links[at.field].data;
        match cur {
            Some(d) => {
                store.set_state(d.target, None);
                store.set_state(at, None);
            },
            None => {},
        }
    }

    /// Connects the links at `first` and `second` to each other, after
    /// disconnecting each from whatever it was connected to.
    pub fn connect<T>(store: &mut Store<T>, first: Place, second: Place)
        requires
            old(store).wf(),
            old(store).links().dom().contains(first),
            old(store).links().dom().contains(second),
            first != second,
        ensures
            final(store).wf(),
            final(store).values() == old(store).values(),
            final(store).links() == connected(old(store).links(), first, second),
            links_symmetric(old(store).links()) ==> links_symmetric(final(store).links()),
    {
        proof {
            if links_symmetric(store.links()) {
                lemma_connect_symmetric(store.links(), first, second);
            }
        }
        Link::disconnect(store, first);
        Link::disconnect(store, second);
        store.set_state(first, Some(LinkData { local: first, target: second }));
        store.set_state(second, Some(LinkData { local: second, target: first }));
    }

    /// Exchanges the counterparts of the links at `a` and `b`, which are
    /// both connected or both disconnected. The counterparts are not told:
    /// each still refers to the link it referred to before.
    pub fn swap<T>(store: &mut Store<T>, a: Place, b: Place)
        requires
            old(store).wf(),
            old(store).links().dom().contains(a),
            old(store).links().dom().contains(b),
            a != b,
            old(store).links()[a] is Some == old(store).links()[b] is Some,
        ensures
            final(store).wf(),
            final(store).values() == old(store).values(),
            final(store).links() == swapped(old(store).links(), a, b),
    {
        let da = store.objs[a.obj].links[a.field].data;
        let db = store.objs[b.obj].links[b.field].data;
        match (da, db) {
            (Some(da), Some(db)) => {
                store.set_state(a, Some(LinkData { local: a, target: db.target }));
                store.set_state(b, Some(LinkData { local: b, target: da.target }));
            },
            _ => {},
        }
    }

    /// The object that embeds the link at `at`, when that link is connected.
    pub fn owner<T>(store: &Store<T>, at: Place) -> (r: Option<&T>)
        requires
            store.wf(),
            store.links().dom().contains(at),
        ensures
            r is Some == store.links()[at] is Some,
            r is Some ==> *r.unwrap() == store.values()[at.obj as int],
    {
        match store.objs[at.obj].links[at.field].data {
            Some(d) => Some(&store.objs[d.local.obj].value),
            None => None,
        }
    }

    /// The object that embeds the link at `at`, for changing, when that link
    /// is connected.
    pub fn owner_mut<T>(store: &mut Store<T>, at: Place) -> (r: Option<&mut T>)
        requires
            old(store).wf(),
            old(store).links().dom().contains(at),
        ensures
            r is Some == old(store).links()[at] is Some,
            r is Some ==> *r.unwrap() == old(store).values()[at.obj as int],
            r is Some ==> final(store).values() == old(store).values().update(
                at.obj as int,
                *final(r.unwrap()),
            ),
            r is None ==> *final(store) == *old(store),
            final(store).links() == old(store).links(),
    {
        if store.objs[at.obj].links[at.field].data.is_some() {
            Some(&mut store.objs[at.obj].value)
        } else {
            None
        }
    }

    /// The object that embeds the counterpart of the link at `at`, when that
    /// link is connected.
    pub fn remote_owner<T>(store: &Store<T>, at: Place) -> (r: Option<&T>)
        requires
            store.wf(),
            store.links().dom().contains(at),
        ensures
            r is Some == store.links()[at] is Some,
            r is Some ==> *r.unwrap() == store.values()[store.links()[at]->0.target.obj as int],
    {
        match store.objs[at.obj].links[at.field].data {
            Some(d) => Some(&store.objs[d.target.obj].value),
            None => None,
        }
    }

    /// The object that embeds the counterpart of the link at `at`, for
    /// changing, when that link is connected.
    pub fn remote_owner_mut<T>(store: &mut Store<T>, at: Place) -> (r: Option<&mut T>)
        requires
            old(store).wf(),
            old(store).links().dom().contains(at),
        ensures
            r is Some == old(store).links()[at] is Some,
            r is Some ==> *r.unwrap() == old(store).values()[old(store).links()[at]->0.target.obj as int],
            r is Some ==> final(store).values() == old(store).values().update(
                old(store).links()[at]->0.target.obj as int,
                *final(r.unwrap()),
            ),
            r is None ==> *final(store) == *old(store),
            final(store).links() == old(store).links(),
    {
        match store.objs[at.obj].links[at.field].data {
            Some(d) => Some(&mut store.objs[d.target.obj].value),
            None => None,
        }
    }
}

/// Disconnecting a link leaves it and its former counterpart disconnected,
/// and keeps every remaining connection symmetric: no link is left referring
/// to a link that no longer refers back.
pub proof fn lemma_disconnect_symmetric(m: Map<Place, Option<LinkData>>, at: Place)
    requires
        links_wf(m),
        links_symmetric(m),
        m.dom().contains(at),
    ensures
        disconnected(m, at)[at] is None,
        m[at] is Some ==> disconnected(m, at)[m[at]->0.target] is None,
        disconnected(m, at).dom() == m.dom(),
        links_wf(disconnected(m, at)),
        links_symmetric(disconnected(m, at)),
{
    let r = disconnected(m, at);
    if m[at] is Some {
        let t = m[at]->0.target;
        assert(r.dom() =~= m.dom());
        assert forall|p: Place| #[trigger] r.dom().contains(p) && r[p] is Some implies r[r[p]->0.target]
            == Some(LinkData { local: r[p]->0.target, target: p }) by {
            let q = m[p]->0.target;
            assert(m[q] == Some(LinkData { local: q, target: p }));
            assert(q != at);
            assert(q != t);
        }
    }
}

/// Disconnecting a link twice is the same as disconnecting it once.
pub proof fn lemma_disconnect_idempotent(m: Map<Place, Option<LinkData>>, at: Place)
    requires
        links_wf(m),
        m.dom().contains(at),
    ensures
        disconnected(disconnected(m, at), at) == disconnected(m, at),
        disconnected(m, at)[at] is None,
{
}

/// After two distinct links are connected, each refers to the other, and
/// every connection of the store is symmetric.
pub proof fn lemma_connect_symmetric(m: Map<Place, Option<LinkData>>, a: Place, b: Place)
    requires
        links_wf(m),
        links_symmetric(m),
        m.dom().contains(a),
        m.dom().contains(b),
        a != b,
    ensures
        connected(m, a, b)[a] == Some(LinkData { local: a, target: b }),
        connected(m, a, b)[b] == Some(LinkData { local: b, target: a }),
        connected(m, a, b).dom() == m.dom(),
        links_wf(connected(m, a, b)),
        links_symmetric(connected(m, a, b)),
{
    lemma_disconnect_symmetric(m, a);
    let m1 = disconnected(m, a);
    lemma_disconnect_symmetric(m1, b);
    let m2 = disconnected(m1, b);
    let r = connected(m, a, b);
    assert(r.dom() =~= m.dom());
    assert forall|p: Place| #[trigger] r.dom().contains(p) && r[p] is Some implies r[r[p]->0.target]
        == Some(LinkData { local: r[p]->0.target, target: p }) by {
        if p != a && p != b {
            let q = m2[p]->0.target;
            assert(m2[q] == Some(LinkData { local: q, target: p }));
        }
    }
}

/// Connecting a link to a third link disconnects its former counterpart,
/// and the link's new counterpart is the third link.
pub proof fn lemma_reconnect(m: Map<Place, Option<LinkData>>, a: Place, b: Place, c: Place)
    requires
        links_wf(m),
        links_symmetric(m),
        m.dom().contains(a),
        m.dom().contains(b),
        m.dom().contains(c),
        a != b,
        a != c,
        b != c,
    ensures
        connected(connected(m, a, b), a, c)[b] is None,
        connected(connected(m, a, b), a, c)[a] == Some(LinkData { local: a, target: c }),
        connected(connected(m, a, b), a, c)[c] == Some(LinkData { local: c, target: a }),
{
    lemma_connect_symmetric(m, a, b);
    let m2 = connected(m, a, b);
    lemma_disconnect_symmetric(m2, a);
    let m3 = disconnected(m2, a);
    lemma_disconnect_symmetric(m3, c);
    if m3[c] is Some {
        let t = m3[c]->0.target;
        assert(m3[t] == Some(LinkData { local: t, target: c }));
    }
}

/// A connected link records the place it sits at, so the object found
/// through it is the one that embeds it.
pub proof fn lemma_owner_round_trip<T>(store: &Store<T>, at: Place)
    requires
        store.wf(),
        store.links().dom().contains(at),
        store.links()[at] is Some,
    ensures
        store.links()[at]->0.local == at,
        store.links()[at]->0.local.obj == at.obj,
{
}

/// Swapping the links of two connected pairs exchanges their counterparts,
/// while each counterpart still refers to the link it referred to before.
pub proof fn lemma_swap(
    m: Map<Place, Option<LinkData>>,
    a1: Place,
    b1: Place,
    a2: Place,
    b2: Place,
)
    requires
        links_wf(m),
        m.dom().contains(a1),
        m.dom().contains(a2),
        m[a1] == Some(LinkData { local: a1, target: b1 }),
        m[b1] == Some(LinkData { local: b1, target: a1 }),
        m[a2] == Some(LinkData { local: a2, target: b2 }),
        m[b2] == Some(LinkData { local: b2, target: a2 }),
        a1 != b1,
        a2 != b2,
        a1 != a2,
        a1 != b2,
        b1 != a2,
        b1 != b2,
    ensures
        swapped(m, a1, a2)[a1] == Some(LinkData { local: a1, target: b2 }),
        swapped(m, a1, a2)[a2] == Some(LinkData { local: a2, target: b1 }),
        swapped(m, a1, a2)[b1] == Some(LinkData { local: b1, target: a1 }),
        swapped(m, a1, a2)[b2] == Some(LinkData { local: b2, target: a2 }),
{
}

} // verus!
