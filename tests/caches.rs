use singleton_cache::{RefCache, SingletonCache};
use std::rc::Rc;

#[derive(PartialEq, Debug, Default, Clone)]
struct MyEntry {
    pub name: String,
}

fn sample(n: usize) -> MyEntry {
    MyEntry {
        name: format!("cached{}", n),
    }
}

fn named(name: &str) -> MyEntry {
    MyEntry {
        name: String::from(name),
    }
}

#[test]
fn it_should_ensure_and_get() {
    let mut sut = SingletonCache::new();
    let clone1 = sut.ensure(|| sample(1));
    assert_eq!(clone1, sample(1));
    assert_eq!(sut.get::<MyEntry>(), Some(sample(1)));
}

#[test]
fn it_should_insert_and_get() {
    let mut sut = SingletonCache::new();
    sut.insert(sample(1));
    sut.insert(sample(2));
    assert_eq!(sut.get::<MyEntry>(), Some(sample(2)));
}

#[test]
fn empty_cache_has_no_entry() {
    let sut = SingletonCache::new();
    assert_eq!(sut.get::<MyEntry>(), None);
    let refs = RefCache::new();
    assert!(refs.get::<MyEntry>().is_none());
}

#[test]
fn insert_then_get_gives_value() {
    let mut sut = SingletonCache::new();
    sut.insert(named("cached1"));
    assert_eq!(sut.get::<MyEntry>(), Some(named("cached1")));
}

#[test]
fn second_ensure_keeps_first_value() {
    let mut sut = SingletonCache::new();
    let first = sut.ensure(|| named("cached1"));
    let mut called = false;
    let second = sut.ensure(|| {
        called = true;
        named("cached2")
    });
    assert_eq!(first, named("cached1"));
    assert_eq!(second, named("cached1"));
    assert!(!called);
    assert_eq!(sut.get::<MyEntry>(), Some(named("cached1")));
}

#[test]
fn later_insert_wins() {
    let mut sut = SingletonCache::new();
    sut.insert(named("cached1"));
    sut.insert(named("cached2"));
    assert_eq!(sut.get::<MyEntry>(), Some(named("cached2")));
}

#[test]
fn remove_then_get_is_absent_in_cache() {
    let mut sut = SingletonCache::new();
    sut.insert(named("x"));
    sut.remove::<MyEntry>();
    assert_eq!(sut.get::<MyEntry>(), None);
    sut.remove::<MyEntry>();
    assert_eq!(sut.get::<MyEntry>(), None);
}

#[test]
fn got_values_are_independent_copies() {
    let mut sut = SingletonCache::new();
    sut.insert(named("a"));
    let mut copy = sut.get::<MyEntry>().unwrap();
    copy.name.push('b');
    assert_eq!(sut.get::<MyEntry>(), Some(named("a")));
}

#[test]
fn cache_types_are_isolated() {
    let mut sut = SingletonCache::new();
    sut.insert(named("a"));
    sut.insert(3u8);
    sut.remove::<u8>();
    assert_eq!(sut.get::<MyEntry>(), Some(named("a")));
    assert_eq!(sut.get::<u8>(), None);
}

#[test]
fn ref_cache_insert_then_get_shares_allocation() {
    let mut sut = RefCache::new();
    let h = sut.insert(named("cached1"));
    let got = sut.get::<MyEntry>().unwrap();
    assert!(Rc::ptr_eq(&h, &got));
    assert_eq!(*got, named("cached1"));
}

#[test]
fn ref_cache_insert_ref_keeps_identity() {
    let mut sut = RefCache::new();
    let h = sut.insert(named("v"));
    sut.insert_ref(h.clone());
    let got = sut.get::<MyEntry>().unwrap();
    assert!(Rc::ptr_eq(&h, &got));
}

#[test]
fn ref_cache_ensure_computes_once() {
    let mut sut = RefCache::new();
    let first = sut.ensure(|| named("cached1"));
    let mut called = false;
    let second = sut.ensure(|| {
        called = true;
        named("cached2")
    });
    assert!(!called);
    assert!(Rc::ptr_eq(&first, &second));
    assert_eq!(*sut.get::<MyEntry>().unwrap(), named("cached1"));
}

#[test]
fn ref_cache_ensure_ref_stores_given_handle() {
    let mut sut = RefCache::new();
    let outside = Rc::new(named("shared"));
    let got = sut.ensure_ref(|| outside.clone());
    assert!(Rc::ptr_eq(&outside, &got));
    let again = sut.ensure_ref(|| Rc::new(named("other")));
    assert!(Rc::ptr_eq(&outside, &again));
}

#[test]
fn ref_cache_overwrite_and_isolation() {
    let mut sut = RefCache::new();
    sut.insert(named("cached1"));
    sut.insert(5i32);
    sut.insert(named("cached2"));
    assert_eq!(*sut.get::<MyEntry>().unwrap(), named("cached2"));
    assert_eq!(*sut.get::<i32>().unwrap(), 5);
}
