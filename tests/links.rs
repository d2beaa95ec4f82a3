use link::{Link, Place, Store};

#[derive(Debug, PartialEq)]
enum Obj {
    A(u32),
    B(String),
}

fn pair() -> (Store<Obj>, Place, Place) {
    let mut store: Store<Obj> = Store::new();
    let a = store.add(Obj::A(42), 1);
    let b = store.add(Obj::B("hello".to_owned()), 1);
    (store, Place { obj: a, field: 0 }, Place { obj: b, field: 0 })
}

#[test]
fn test_owned() {
    let mut store: Store<Obj> = Store::new();
    let a = store.add(Obj::A(42), 1);
    let la = Place { obj: a, field: 0 };
    assert!(!store.link(la).connected());
    {
        let b = store.add(Obj::B("hello".to_owned()), 1);
        let lb = Place { obj: b, field: 0 };
        Link::connect(&mut store, la, lb);
        assert!(store.link(la).connected());
        assert!(store.link(lb).connected());
        assert_eq!(store.link(la).owner_ptr(), Some(a));
        assert_eq!(store.link(lb).owner_ptr(), Some(b));
        assert_eq!(store.link(la).remote_owner_ptr(), Some(b));
        assert_eq!(store.link(lb).remote_owner_ptr(), Some(a));
        assert_eq!(Link::remote_owner(&store, la).unwrap(), &Obj::B("hello".to_owned()));
        assert_eq!(Link::remote_owner(&store, lb).unwrap(), &Obj::A(42));
        Link::disconnect(&mut store, la);
        assert!(!store.link(la).connected());
        assert!(!store.link(lb).connected());
        Link::connect(&mut store, lb, la);
        assert!(store.link(la).connected());
        assert!(store.link(lb).connected());
        assert_eq!(store.link(la).owner_ptr(), Some(a));
        assert_eq!(store.link(lb).owner_ptr(), Some(b));
        assert_eq!(store.link(la).remote_owner_ptr(), Some(b));
        assert_eq!(store.link(lb).remote_owner_ptr(), Some(a));
        assert_eq!(Link::remote_owner(&store, la).unwrap(), &Obj::B("hello".to_owned()));
        assert_eq!(Link::remote_owner(&store, lb).unwrap(), &Obj::A(42));
        Link::disconnect(&mut store, lb);
    }
    assert!(!store.link(la).connected());
}

#[test]
fn new_link_is_disconnected() {
    let l = Link::new();
    assert!(!l.connected());
    assert_eq!(l.owner_ptr(), None);
    assert_eq!(l.owner_mut_ptr(), None);
    assert_eq!(l.remote_owner_ptr(), None);
    assert_eq!(l.remote_owner_mut_ptr(), None);
    let d: Link = Default::default();
    assert!(!d.connected());
}

#[test]
fn store_add_and_places() {
    let mut store: Store<u32> = Store::new();
    assert_eq!(store.len(), 0);
    let h0 = store.add(7, 2);
    let h1 = store.add(8, 0);
    assert_eq!((h0, h1), (0, 1));
    assert_eq!(store.len(), 2);
    assert_eq!(*store.value(0), 7);
    assert_eq!(*store.value(1), 8);
    assert!(store.has_place(Place { obj: 0, field: 1 }));
    assert!(!store.has_place(Place { obj: 0, field: 2 }));
    assert!(!store.has_place(Place { obj: 1, field: 0 }));
    assert!(!store.has_place(Place { obj: 2, field: 0 }));
    assert!(!store.link(Place { obj: 0, field: 0 }).connected());
}

#[test]
fn connect_is_symmetric() {
    let (mut store, la, lb) = pair();
    Link::connect(&mut store, la, lb);
    assert_eq!(store.link(la).remote_owner_ptr(), Some(lb.obj));
    assert_eq!(store.link(lb).remote_owner_ptr(), Some(la.obj));
    assert_eq!(store.link(la).owner_mut_ptr(), Some(la.obj));
    assert_eq!(store.link(lb).remote_owner_mut_ptr(), Some(la.obj));
    assert_eq!(Link::owner(&store, la).unwrap(), &Obj::A(42));
    assert_eq!(Link::owner(&store, lb).unwrap(), &Obj::B("hello".to_owned()));
}

#[test]
fn reconnect_to_third_disconnects_old_counterpart() {
    let (mut store, la, lb) = pair();
    let c = store.add(Obj::A(7), 1);
    let lc = Place { obj: c, field: 0 };
    Link::connect(&mut store, la, lb);
    Link::connect(&mut store, la, lc);
    assert!(!store.link(lb).connected());
    assert_eq!(store.link(la).remote_owner_ptr(), Some(c));
    assert_eq!(store.link(lc).remote_owner_ptr(), Some(la.obj));
    assert_eq!(Link::remote_owner(&store, la).unwrap(), &Obj::A(7));
}

#[test]
fn disconnect_twice_is_disconnect_once() {
    let (mut store, la, lb) = pair();
    Link::connect(&mut store, la, lb);
    Link::disconnect(&mut store, la);
    assert!(!store.link(la).connected());
    assert!(!store.link(lb).connected());
    Link::disconnect(&mut store, la);
    assert!(!store.link(la).connected());
    assert!(!store.link(lb).connected());
    Link::disconnect(&mut store, lb);
    assert!(!store.link(lb).connected());
}

#[test]
fn disconnect_clears_both_sides() {
    let (mut store, la, lb) = pair();
    Link::connect(&mut store, la, lb);
    Link::disconnect(&mut store, lb);
    assert!(!store.link(la).connected());
    assert_eq!(store.link(la).remote_owner_ptr(), None);
    assert_eq!(Link::remote_owner(&store, la), None);
    assert_eq!(Link::owner(&store, la), None);
}

#[test]
fn owner_round_trip() {
    let mut store: Store<u32> = Store::new();
    let x = store.add(1, 3);
    let y = store.add(2, 3);
    let lx = Place { obj: x, field: 2 };
    let ly = Place { obj: y, field: 1 };
    Link::connect(&mut store, lx, ly);
    assert_eq!(store.link(lx).owner_ptr(), Some(x));
    assert_eq!(store.link(ly).owner_ptr(), Some(y));
    assert_eq!(*Link::owner(&store, lx).unwrap(), 1);
    assert!(!store.link(Place { obj: x, field: 0 }).connected());
}

#[test]
fn links_within_one_object() {
    let mut store: Store<u32> = Store::new();
    let x = store.add(5, 2);
    let l0 = Place { obj: x, field: 0 };
    let l1 = Place { obj: x, field: 1 };
    Link::connect(&mut store, l0, l1);
    assert_eq!(store.link(l0).remote_owner_ptr(), Some(x));
    assert_eq!(*Link::remote_owner(&store, l1).unwrap(), 5);
}

#[test]
fn owner_mut_changes_the_owner() {
    let mut store: Store<u32> = Store::new();
    let x = store.add(10, 1);
    let y = store.add(20, 1);
    let lx = Place { obj: x, field: 0 };
    let ly = Place { obj: y, field: 0 };
    assert!(Link::owner_mut(&mut store, lx).is_none());
    assert!(Link::remote_owner_mut(&mut store, lx).is_none());
    Link::connect(&mut store, lx, ly);
    *Link::owner_mut(&mut store, lx).unwrap() += 1;
    *Link::remote_owner_mut(&mut store, lx).unwrap() += 2;
    assert_eq!(*store.value(x), 11);
    assert_eq!(*store.value(y), 22);
    assert!(store.link(lx).connected());
}

#[test]
fn swap_exchanges_remote_owners_only() {
    let mut store: Store<u32> = Store::new();
    let l1 = Place { obj: store.add(1, 1), field: 0 };
    let m1 = Place { obj: store.add(2, 1), field: 0 };
    let l2 = Place { obj: store.add(3, 1), field: 0 };
    let m2 = Place { obj: store.add(4, 1), field: 0 };
    Link::connect(&mut store, l1, m1);
    Link::connect(&mut store, l2, m2);
    Link::swap(&mut store, l1, l2);
    assert_eq!(store.link(l1).remote_owner_ptr(), Some(m2.obj));
    assert_eq!(store.link(l2).remote_owner_ptr(), Some(m1.obj));
    assert_eq!(store.link(m1).remote_owner_ptr(), Some(l1.obj));
    assert_eq!(store.link(m2).remote_owner_ptr(), Some(l2.obj));
    assert_eq!(*Link::remote_owner(&store, l1).unwrap(), 4);
}

#[test]
fn swap_of_disconnected_links_does_nothing() {
    let mut store: Store<u32> = Store::new();
    let l1 = Place { obj: store.add(1, 1), field: 0 };
    let l2 = Place { obj: store.add(2, 1), field: 0 };
    Link::swap(&mut store, l1, l2);
    assert!(!store.link(l1).connected());
    assert!(!store.link(l2).connected());
}
