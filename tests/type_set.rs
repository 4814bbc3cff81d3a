use singleton_cache::TypeSet;
use std::cell::Cell;

#[derive(PartialEq, Debug, Default)]
struct MyEntry {
    pub name: String,
}

fn sample(n: usize) -> MyEntry {
    MyEntry {
        name: format!("cached{}", n),
    }
}

#[test]
fn it_can_insert_and_get() {
    let mut sut = TypeSet::new();

    sut.insert(sample(1));

    let item_ref = sut.get::<MyEntry>();

    assert_eq!(item_ref, Some(&sample(1)));
}

#[test]
fn it_cannot_get_when_not_stored() {
    let sut = TypeSet::new();

    let item_ref = sut.get::<MyEntry>();

    assert_eq!(item_ref, None);
}

#[test]
fn it_can_update() {
    let mut sut = TypeSet::new();

    sut.insert(sample(1));
    sut.update(|mr| *mr = sample(2));

    assert_eq!(sut.get::<MyEntry>(), Some(&sample(2)));
}

#[test]
fn it_can_ensure() {
    let mut sut = TypeSet::new();

    sut.ensure(|| sample(1));
    assert_eq!(sut.get::<MyEntry>(), Some(&sample(1)));

    sut.ensure(|| sample(2));
    assert_eq!(sut.get::<MyEntry>(), Some(&sample(1)));
}

#[test]
fn it_can_be_used_as_cache() {
    let mut sut = TypeSet::new();

    let entry = sut.ensure(|| Cell::new(sample(2)));
    entry.set(sample(1));

    assert_eq!(
        sut.get::<Cell<MyEntry>>().map(|c| c.take()),
        Some(sample(1))
    );
}

#[test]
fn insert_returns_reference_to_stored_value() {
    let mut sut = TypeSet::new();
    let stored = sut.insert(sample(3));
    assert_eq!(*stored, sample(3));
    stored.name = String::from("changed");
    assert_eq!(sut.get::<MyEntry>().map(|e| e.name.as_str()), Some("changed"));
}

#[test]
fn insert_overwrites_earlier_value() {
    let mut sut = TypeSet::new();
    sut.insert(sample(1));
    sut.insert(sample(2));
    assert_eq!(sut.get::<MyEntry>(), Some(&sample(2)));
}

#[test]
fn get_mut_changes_value_in_place() {
    let mut sut = TypeSet::new();
    assert!(sut.get_mut::<u32>().is_none());
    sut.insert(10u32);
    if let Some(v) = sut.get_mut::<u32>() {
        *v += 5;
    }
    assert_eq!(sut.get::<u32>(), Some(&15u32));
}

#[test]
fn update_on_absent_type_inserts_nothing() {
    let mut sut = TypeSet::new();
    let mut called = false;
    sut.update(|_: &mut MyEntry| called = true);
    assert!(!called);
    assert_eq!(sut.get::<MyEntry>(), None);
}

#[test]
fn ensure_does_not_call_factory_when_present() {
    let mut sut = TypeSet::new();
    sut.insert(sample(1));
    let mut called = false;
    let got = sut.ensure(|| {
        called = true;
        sample(2)
    });
    assert_eq!(*got, sample(1));
    assert!(!called);
}

#[test]
fn remove_then_get_is_absent() {
    let mut sut = TypeSet::new();
    sut.insert(sample(1));
    sut.remove::<MyEntry>();
    assert_eq!(sut.get::<MyEntry>(), None);
    sut.remove::<MyEntry>();
    assert_eq!(sut.get::<MyEntry>(), None);
}

#[test]
fn types_are_isolated() {
    let mut sut = TypeSet::new();
    sut.insert(7u32);
    sut.insert(7u64);
    sut.insert(sample(1));
    sut.insert(8u32);
    assert_eq!(sut.get::<u64>(), Some(&7u64));
    assert_eq!(sut.get::<u32>(), Some(&8u32));
    sut.remove::<u32>();
    assert_eq!(sut.get::<u32>(), None);
    assert_eq!(sut.get::<u64>(), Some(&7u64));
    assert_eq!(sut.get::<MyEntry>(), Some(&sample(1)));
    assert_eq!(sut.get::<i64>(), None);
}

#[test]
fn default_set_is_empty() {
    let sut = TypeSet::default();
    assert_eq!(sut.get::<MyEntry>(), None);
}
