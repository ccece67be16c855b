use anonymous_table::{Anonymous, AnonymousRow};

#[derive(Copy, Clone, Debug, Eq, PartialEq)]
struct ComplexStruct {
    one: i32,
    two: u32,
}
impl Anonymous for ComplexStruct {
    fn id() -> u16 {
        0
    }
}

/// A floating-point payload, under the identity that is kept for it.
#[derive(Copy, Clone, Debug, PartialEq)]
struct Real(f64);
impl Anonymous for Real {
    fn id() -> u16 {
        13
    }
}

#[test]
fn push() {
    let mut row = AnonymousRow::new();
    assert_eq!(row.len(), 0);
    row.push(1);
    assert_eq!(row.len(), 1);
    row.push(Real(2.0));
    assert_eq!(row.len(), 2);
    row.push(3u32);
    assert_eq!(row.len(), 3);
}

#[test]
fn get() {
    let mut row = AnonymousRow::new();
    row.push(1);
    row.push(Real(2.0));
    row.push(3u32);

    assert_eq!(1, *row.get_at::<i32>(0).unwrap());
    assert_eq!(Real(2.0), *row.get_at::<Real>(1).unwrap());
    assert_eq!(3u32, *row.get_at::<u32>(2).unwrap());
}

#[test]
fn change() {
    let mut row = AnonymousRow::new();
    row.push(1);
    row.push(Real(2.0));
    row.exchange_at(3, 0).unwrap();
    assert_eq!(3, *row.get_at::<i32>(0).unwrap());
    assert_eq!(Real(2.0), *row.get_at::<Real>(1).unwrap());
}

#[test]
fn update() {
    let mut row = AnonymousRow::new();
    row.push(ComplexStruct { one: 1, two: 2 });
    row.push(Real(2.0));
    let ptr: &mut ComplexStruct = row.get_mut_at(0).unwrap();
    ptr.one = 2;
    assert_eq!(*row.get_at::<ComplexStruct>(0).unwrap(), ComplexStruct { one: 2, two: 2 });
}

#[test]
fn exchange_returns_the_old_value() {
    let mut row = AnonymousRow::new();
    row.push(1);
    row.push(Real(2.0));
    assert_eq!(row.exchange_at(3, 0), Ok(1));
    assert_eq!(*row.get_at::<i32>(0).unwrap(), 3);
    assert_eq!(*row.get_at::<Real>(1).unwrap(), Real(2.0));
}

#[test]
fn exchange_of_another_type_fails_and_changes_nothing() {
    let mut row = AnonymousRow::new();
    row.push(1);
    row.push(Real(2.0));
    assert_eq!(row.exchange_at(3u32, 0), Err(()));
    assert_eq!(row.exchange_at(3, 1), Err(()));
    assert_eq!(row.exchange_at(Real(3.0), 0), Err(()));
    assert_eq!(row.exchange_at(3, 2), Err(()));
    assert_eq!(row.len(), 2);
    assert_eq!(row.get_ids(), vec![2, 13]);
    assert_eq!(*row.get_at::<i32>(0).unwrap(), 1);
    assert_eq!(*row.get_at::<Real>(1).unwrap(), Real(2.0));
}

#[test]
fn get_guards_type_and_range() {
    let mut row = AnonymousRow::new();
    row.push(1);
    row.push(Real(2.0));
    row.push(3u32);
    assert!(row.get_at::<u32>(0).is_none());
    assert!(row.get_at::<i32>(1).is_none());
    assert!(row.get_at::<i32>(2).is_none());
    assert!(row.get_at::<u32>(3).is_none());
    assert!(row.get_at::<Option<u32>>(2).is_none());
    assert!(row.get_mut_at::<u32>(0).is_none());
    assert!(row.get_mut_at::<u32>(3).is_none());
    assert_eq!(*row.get_mut_at::<u32>(2).unwrap(), 3);
}

#[test]
fn unchecked_reads() {
    let mut row = AnonymousRow::new().chain_push(1).chain_push(Real(2.0));
    assert_eq!(*row.get_at_unchecked::<i32>(0).unwrap(), 1);
    assert!(row.get_at_unchecked::<u32>(0).is_none());
    *row.get_at_mut_unchecked::<Real>(1).unwrap() = Real(4.5);
    assert!(row.get_at_mut_unchecked::<i32>(1).is_none());
    assert_eq!(*row.get_at::<Real>(1).unwrap(), Real(4.5));
}

#[test]
fn chain_push_appends() {
    let row = AnonymousRow::with_capacity(4).chain_push(1u8).chain_push('c').chain_push(false);
    assert_eq!(row.len(), 3);
    assert_eq!(row.get_ids(), vec![6, 14, 15]);
    assert_eq!(*row.get_at::<u8>(0).unwrap(), 1);
    assert_eq!(*row.get_at::<char>(1).unwrap(), 'c');
    assert_eq!(*row.get_at::<bool>(2).unwrap(), false);
}

#[test]
fn insert_shifts_later_columns() {
    let mut row = AnonymousRow::new().chain_push(1).chain_push(3u32);
    assert_eq!(row.insert(Real(2.0), 1), Ok(()));
    assert_eq!(row.len(), 3);
    assert_eq!(row.get_ids(), vec![2, 13, 8]);
    assert_eq!(*row.get_at::<i32>(0).unwrap(), 1);
    assert_eq!(*row.get_at::<Real>(1).unwrap(), Real(2.0));
    assert_eq!(*row.get_at::<u32>(2).unwrap(), 3);
    assert_eq!(row.insert('a', 0), Ok(()));
    assert_eq!(row.insert('z', 4), Ok(()));
    assert_eq!(row.get_ids(), vec![14, 2, 13, 8, 14]);
}

#[test]
fn insert_beyond_the_end_fails() {
    let mut row = AnonymousRow::new().chain_push(1);
    assert_eq!(row.insert(2, 2), Err(()));
    assert_eq!(row.len(), 1);
    assert_eq!(*row.get_at::<i32>(0).unwrap(), 1);
    let mut empty = AnonymousRow::new();
    assert_eq!(empty.insert(2, 1), Err(()));
    assert_eq!(empty.len(), 0);
    assert_eq!(empty.get_ids(), Vec::<u16>::new());
}
