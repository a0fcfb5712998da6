use arcu::ThreadLocalRcu;
use arcu::epoch_counters::{EpochCounter, GlobalEpochCounterPool};
use arcu::rcu_ref::{PartialProjection, Projection, RcuRef, Then, Total, Whole};
use std::marker::PhantomData;
use std::ops::Deref;
use std::sync::Arc;

struct Second;

impl Projection<(i32, String), String> for Second {
    fn image(&self, _from: (i32, String)) -> String {
        unreachable!("a statement about `project`, never called")
    }

    fn project<'a>(&self, from: &'a (i32, String)) -> &'a String {
        &from.1
    }
}

struct First;

impl Projection<(i32, String), i32> for First {
    fn image(&self, _from: (i32, String)) -> i32 {
        unreachable!("a statement about `project`, never called")
    }

    fn project<'a>(&self, from: &'a (i32, String)) -> &'a i32 {
        &from.0
    }
}

struct Content;

impl PartialProjection<Option<(i32, String)>, (i32, String)> for Content {
    fn try_image(&self, _from: Option<(i32, String)>) -> Option<(i32, String)> {
        unreachable!("a statement about `try_project`, never called")
    }

    fn try_project<'a>(&self, from: &'a Option<(i32, String)>) -> Option<&'a (i32, String)> {
        from.as_ref()
    }
}

#[test]
fn new_snapshot_shows_the_whole_root() {
    let arc = Arc::new((7, String::from("hello")));
    let snapshot = RcuRef::new(arc.clone());
    assert_eq!(snapshot.deref(), &(7, String::from("hello")));
    assert_eq!(RcuRef::get(&snapshot), &(7, String::from("hello")));
    assert!(std::ptr::eq(RcuRef::get_root(&snapshot), arc.deref()));
    assert!(std::ptr::eq(snapshot.deref(), arc.deref()));
}

#[test]
fn map_projection() {
    let mut local: Option<Arc<EpochCounter>> = None;
    let rcu = arcu::atomic::Arcu::new((7, String::from("hello")), GlobalEpochCounterPool::new());
    let snapshot = rcu.read(&mut local).unwrap();
    let mapped = RcuRef::map(snapshot, Second);
    assert_eq!(mapped.deref(), "hello");
    assert_eq!(RcuRef::get_root(&mapped), &(7, String::from("hello")));

    // replacing the slot does not invalidate the snapshot
    let displaced = rcu.replace((8, String::from("bye"))).reclaim().ok().unwrap();
    drop(displaced);
    assert_eq!(mapped.deref(), "hello");
    assert_eq!(RcuRef::get_root(&mapped).0, 7);
    assert_eq!(rcu.read(&mut local).unwrap().1, "bye");
}

#[test]
fn map_borrows_from_the_root_without_copying() {
    let arc = Arc::new((7, String::from("hello")));
    let mapped = RcuRef::map(RcuRef::new(arc.clone()), Second);
    assert!(std::ptr::eq(mapped.deref(), &arc.1));
    let first = RcuRef::map(RcuRef::new(arc.clone()), First);
    assert!(std::ptr::eq(first.deref(), &arc.0));
    assert_eq!(*first, 7);
}

#[test]
fn try_map_narrows_when_the_part_is_there() {
    let arc = Arc::new(Some((7, String::from("hello"))));
    let inner = RcuRef::try_map(RcuRef::new(arc.clone()), Content);
    let inner = inner.unwrap();
    assert_eq!(inner.deref(), &(7, String::from("hello")));
    let text = RcuRef::map(inner, Second);
    assert_eq!(text.deref(), "hello");
    assert!(std::ptr::eq(RcuRef::get_root(&text), arc.deref()));
}

#[test]
fn try_map_gives_none_when_the_part_is_missing() {
    let arc: Arc<Option<(i32, String)>> = Arc::new(None);
    assert_eq!(Arc::strong_count(&arc), 1);
    let inner = RcuRef::try_map(RcuRef::new(arc.clone()), Content);
    assert!(inner.is_none());
    // the snapshot was given up with its handle
    assert_eq!(Arc::strong_count(&arc), 1);
}

#[test]
fn same_epoch_tells_roots_apart() {
    let one = Arc::new((7, String::from("hello")));
    let other = Arc::new((7, String::from("hello")));
    let a = RcuRef::new(one.clone());
    let b = RcuRef::map(RcuRef::new(one.clone()), Second);
    let c = RcuRef::new(other.clone());
    assert!(RcuRef::same_epoch(&a, &b));
    assert!(RcuRef::same_epoch(&b, &a));
    assert!(RcuRef::same_epoch(&a, &a));
    // equal values, but not the same payload
    assert!(!RcuRef::same_epoch(&a, &c));
    assert!(!RcuRef::same_epoch(&b, &c));
}

#[test]
fn ptr_eq_tells_parts_apart() {
    let one = Arc::new((7, String::from("hello")));
    let other = Arc::new((7, String::from("hello")));
    let a = RcuRef::map(RcuRef::new(one.clone()), Second);
    let b = RcuRef::map(RcuRef::new(one.clone()), Second);
    let c = RcuRef::map(RcuRef::new(other.clone()), Second);
    assert!(RcuRef::ptr_eq(&a, &b));
    assert!(RcuRef::ptr_addr_eq(&a, &b));
    assert!(RcuRef::ptr_eq(&a, &a));
    // equal values at different places
    assert_eq!(a.deref(), c.deref());
    assert!(!RcuRef::ptr_eq(&a, &c));
    assert!(!RcuRef::ptr_addr_eq(&a, &c));
}

#[test]
fn clone_shares_root_and_part() {
    let arc = Arc::new((7, String::from("hello")));
    let a = RcuRef::map(RcuRef::new(arc.clone()), Second);
    assert_eq!(Arc::strong_count(&arc), 2);
    let b = RcuRef::clone(&a);
    assert_eq!(Arc::strong_count(&arc), 3);
    assert!(RcuRef::same_epoch(&a, &b));
    assert!(RcuRef::ptr_eq(&a, &b));
    assert_eq!(b.deref(), "hello");
    drop(a);
    assert_eq!(b.deref(), "hello");
    drop(b);
    assert_eq!(Arc::strong_count(&arc), 1);
}

#[test]
fn projections_compose() {
    let value = Some((7, String::from("hello")));
    let path = Then { first: Arc::new(Content), second: Total(Second), via: PhantomData };
    assert_eq!(path.try_project(&value), Some(&String::from("hello")));
    assert_eq!(path.try_project(&None), None);
    assert_eq!(Total(First).try_project(&(7, String::new())), Some(&7));
    assert_eq!(Projection::project(&Whole, &5), &5);
    assert_eq!(PartialProjection::try_project(&Whole, &5), Some(&5));
}

#[test]
fn snapshot_of_a_payload_that_borrows() {
    let text = String::from("borrowed");
    let arc: Arc<&str> = Arc::new(text.as_str());
    let snapshot = RcuRef::new(arc.clone());
    let copy = RcuRef::clone(&snapshot);
    assert_eq!(*snapshot.deref(), "borrowed");
    assert!(RcuRef::same_epoch(&snapshot, &copy));
    assert!(std::ptr::eq(RcuRef::get_root(&copy), arc.deref()));
}
