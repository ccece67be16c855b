use anonymous_table::index::{index_row, locate};
use anonymous_table::{Anonymous, AnonymousRow, AnonymousTable, RowName, TableIndex, Tag};
use std::collections::HashMap;

#[derive(Copy, Clone, Debug, PartialEq)]
struct Real(f64);
impl Anonymous for Real {
    fn id() -> u16 {
        13
    }
}

/// Shares its identity with `u32`.
#[derive(Copy, Clone, Debug, PartialEq)]
struct Impostor(u32);
impl Anonymous for Impostor {
    fn id() -> u16 {
        8
    }
}

fn sample() -> AnonymousTable {
    AnonymousTable::new()
        .chain_push_row(AnonymousRow::new().chain_push(1).chain_push(10u32))
        .chain_push_row(AnonymousRow::new().chain_push(20u32).chain_push(Real(0.5)).chain_push(30u32))
        .chain_push_row(AnonymousRow::new())
        .chain_push_row(AnonymousRow::new().chain_push(40u32))
}

#[test]
fn new_table_is_empty() {
    let table = AnonymousTable::new();
    assert_eq!(table.len(), 0);
    assert!(table.get_row(0).is_none());
    assert!(table.get_named_row(RowName(0)).is_none());
    assert!(table.get_tagged_rows(Tag(0)).is_none());
    assert!(table.get_all_of_type::<i32>().is_empty());
}

#[test]
fn rows_keep_their_position() {
    let mut table = sample();
    assert_eq!(table.len(), 4);
    assert_eq!(table.get_row(0).unwrap().get_ids(), vec![2, 8]);
    assert_eq!(table.get_row(1).unwrap().get_ids(), vec![8, 13, 8]);
    assert_eq!(table.get_row(2).unwrap().len(), 0);
    assert_eq!(table.get_row(3).unwrap().get_ids(), vec![8]);
    assert!(table.get_row(4).is_none());
    assert!(table.get_row_mut(4).is_none());
    assert_eq!(table.get_row_mut(3).unwrap().len(), 1);
}

#[test]
fn named_row_is_found() {
    let mut table = sample();
    table.register_named_row(AnonymousRow::new().chain_push('r'), RowName(7));
    assert_eq!(table.len(), 5);
    let row = table.get_named_row(RowName(7)).unwrap();
    assert_eq!(row.len(), 1);
    assert_eq!(*row.get_at::<char>(0).unwrap(), 'r');
    assert!(table.get_named_row(RowName(8)).is_none());
    assert!(table.get_named_row_mut(RowName(8)).is_none());
    *table.get_named_row_mut(RowName(7)).unwrap().get_mut_at::<char>(0).unwrap() = 's';
    assert_eq!(*table.get_row(4).unwrap().get_at::<char>(0).unwrap(), 's');
}

#[test]
fn a_name_moves_to_the_newer_row() {
    let mut table = AnonymousTable::new();
    table.register_named_row(AnonymousRow::new().chain_push(1), RowName(1));
    table.register_named_row(AnonymousRow::new().chain_push(2), RowName(1));
    assert_eq!(table.len(), 2);
    assert_eq!(*table.get_named_row(RowName(1)).unwrap().get_at::<i32>(0).unwrap(), 2);
    assert_eq!(*table.get_row(0).unwrap().get_at::<i32>(0).unwrap(), 1);
    assert_eq!(table.get_all_of_type::<i32>(), vec![&1, &2]);
}

#[test]
fn tagged_rows_come_in_order() {
    let mut table = AnonymousTable::new();
    table.register_tagged_row(AnonymousRow::new().chain_push(1), Tag(3));
    table.push_row(AnonymousRow::new().chain_push(0));
    table.register_tagged_row(AnonymousRow::new().chain_push(2), Tag(3));
    table.register_tagged_row(AnonymousRow::new().chain_push(9), Tag(4));
    table.register_tagged_row(AnonymousRow::new().chain_push(3), Tag(3));
    let rows = table.get_tagged_rows(Tag(3)).unwrap();
    assert_eq!(rows.len(), 3);
    assert_eq!(*rows[0].get_at::<i32>(0).unwrap(), 1);
    assert_eq!(*rows[1].get_at::<i32>(0).unwrap(), 2);
    assert_eq!(*rows[2].get_at::<i32>(0).unwrap(), 3);
    assert_eq!(table.get_tagged_rows(Tag(4)).unwrap().len(), 1);
    assert!(table.get_tagged_rows(Tag(5)).is_none());
}

#[test]
fn named_and_tagged_row() {
    let mut table = sample();
    table.registed_named_tagged_row(AnonymousRow::new().chain_push(true), Tag(1), RowName(2));
    table.registed_named_tagged_row(AnonymousRow::new().chain_push(false), Tag(1), RowName(3));
    assert_eq!(table.len(), 6);
    assert_eq!(*table.get_named_row(RowName(2)).unwrap().get_at::<bool>(0).unwrap(), true);
    assert_eq!(*table.get_named_row(RowName(3)).unwrap().get_at::<bool>(0).unwrap(), false);
    let rows = table.get_tagged_rows(Tag(1)).unwrap();
    assert_eq!(rows.len(), 2);
    assert_eq!(*rows[0].get_at::<bool>(0).unwrap(), true);
    assert_eq!(*rows[1].get_at::<bool>(0).unwrap(), false);
    assert!(table.get_tagged_rows(Tag(2)).is_none());
    assert!(table.get_named_row(RowName(1)).is_none());
    assert_eq!(table.get_all_of_type::<bool>(), vec![&true, &false]);
}

#[test]
fn values_of_a_type_come_in_row_major_order() {
    let table = sample();
    assert_eq!(table.get_all_of_type::<u32>(), vec![&10, &20, &30, &40]);
    assert_eq!(table.get_all_of_type::<i32>(), vec![&1]);
    assert_eq!(table.get_all_of_type::<Real>(), vec![&Real(0.5)]);
    assert!(table.get_all_of_type::<u64>().is_empty());
}

#[test]
fn two_rows_with_one_cell_of_a_type_each() {
    let mut table = AnonymousTable::new();
    table.push_row(AnonymousRow::new().chain_push('a').chain_push(5u64));
    table.push_row(AnonymousRow::new().chain_push(6u64).chain_push('b'));
    assert_eq!(table.get_all_of_type::<u64>(), vec![&5, &6]);
    assert_eq!(table.get_all_of_type::<char>(), vec![&'a', &'b']);
}

#[test]
fn a_cell_of_another_type_under_the_same_identity_is_left_out() {
    let mut table = sample();
    table.push_row(AnonymousRow::new().chain_push(Impostor(50)).chain_push(60u32));
    assert_eq!(table.get_all_of_type::<u32>(), vec![&10, &20, &30, &40, &60]);
    assert_eq!(table.get_all_of_type::<Impostor>(), vec![&Impostor(50)]);
}

#[test]
fn insert_at_keeps_the_type_index_in_step() {
    let mut table = sample();
    assert_eq!(table.insert_at(15u32, TableIndex { row: 1, column: 0 }), Ok(()));
    assert_eq!(table.get_row(1).unwrap().get_ids(), vec![8, 8, 13, 8]);
    assert_eq!(table.get_all_of_type::<u32>(), vec![&10, &15, &20, &30, &40]);
    assert_eq!(table.get_all_of_type::<Real>(), vec![&Real(0.5)]);
    assert_eq!(table.insert_at(7, TableIndex { row: 2, column: 0 }), Ok(()));
    assert_eq!(table.insert_at(8, TableIndex { row: 1, column: 4 }), Ok(()));
    assert_eq!(table.get_all_of_type::<i32>(), vec![&1, &8, &7]);
    table.push_row(AnonymousRow::new().chain_push(9).chain_push(45u32));
    assert_eq!(table.get_all_of_type::<i32>(), vec![&1, &8, &7, &9]);
    assert_eq!(table.get_all_of_type::<u32>(), vec![&10, &15, &20, &30, &40, &45]);
}

#[test]
fn insert_at_outside_the_table_fails() {
    let mut table = sample();
    assert_eq!(table.insert_at(1, TableIndex { row: 4, column: 0 }), Err(()));
    assert_eq!(table.insert_at(1, TableIndex { row: 0, column: 3 }), Err(()));
    assert_eq!(table.insert_at(1, TableIndex { row: 2, column: 1 }), Err(()));
    assert_eq!(table.len(), 4);
    assert_eq!(table.get_row(0).unwrap().len(), 2);
    assert_eq!(table.get_row(2).unwrap().len(), 0);
    assert_eq!(table.get_all_of_type::<i32>(), vec![&1]);
}

#[test]
fn a_row_changed_in_place_is_indexed_anew() {
    let mut table = sample();
    table.get_row_mut(1).unwrap().insert(25u32, 1).unwrap();
    table.get_row_mut(0).unwrap().insert(5u32, 0).unwrap();
    table.get_row_mut(2).unwrap().push(35u32);
    assert_eq!(table.get_all_of_type::<u32>(), vec![&5, &10, &20, &25, &30, &35, &40]);
    assert_eq!(table.get_all_of_type::<i32>(), vec![&1]);
    table.register_named_row(AnonymousRow::new().chain_push(50u32), RowName(0));
    assert_eq!(table.get_all_of_type::<u32>(), vec![&5, &10, &20, &25, &30, &35, &40, &50]);
    *table.get_named_row_mut(RowName(0)).unwrap() = AnonymousRow::new().chain_push(2).chain_push(3);
    assert!(table.get_row_mut(9).is_none());
    assert_eq!(table.get_all_of_type::<i32>(), vec![&1, &2, &3]);
    assert_eq!(table.get_all_of_type::<u32>(), vec![&5, &10, &20, &25, &30, &35, &40]);
    table.register_tagged_row(AnonymousRow::new().chain_push(4), Tag(0));
    assert_eq!(table.get_all_of_type::<i32>(), vec![&1, &2, &3, &4]);
}

#[test]
fn values_changed_in_place_are_seen() {
    let mut table = sample();
    *table.get_row_mut(1).unwrap().get_mut_at::<u32>(2).unwrap() = 31;
    assert_eq!(table.get_row_mut(0).unwrap().exchange_at(11u32, 1), Ok(10));
    assert_eq!(table.get_all_of_type::<u32>(), vec![&11, &20, &31, &40]);
}

#[test]
fn clear_forgets_rows_names_and_tags() {
    let mut table = sample();
    table.registed_named_tagged_row(AnonymousRow::new().chain_push(true), Tag(1), RowName(2));
    table.clear();
    assert_eq!(table.len(), 0);
    assert!(table.get_row(0).is_none());
    assert!(table.get_named_row(RowName(2)).is_none());
    assert!(table.get_tagged_rows(Tag(1)).is_none());
    assert!(table.get_all_of_type::<u32>().is_empty());
    assert!(table.get_all_of_type::<bool>().is_empty());
    table.register_tagged_row(AnonymousRow::new().chain_push(false), Tag(1));
    assert_eq!(table.get_tagged_rows(Tag(1)).unwrap().len(), 1);
    assert_eq!(table.get_all_of_type::<bool>(), vec![&false]);
}

#[test]
fn capacity_covers_what_was_reserved() {
    let mut table = sample();
    assert!(table.capacity() >= 4);
    table.reserve(100);
    assert!(table.capacity() >= 104);
    assert_eq!(table.len(), 4);
    assert_eq!(table.get_all_of_type::<u32>(), vec![&10, &20, &30, &40]);
}

#[test]
fn index_row_lists_columns_by_identity() {
    let mut index: HashMap<u16, Vec<TableIndex>> = HashMap::new();
    index_row(&mut index, 0, &vec![2, 8, 2]);
    index_row(&mut index, 1, &vec![]);
    index_row(&mut index, 2, &vec![8]);
    assert_eq!(index.len(), 2);
    assert_eq!(
        index[&2],
        vec![TableIndex { row: 0, column: 0 }, TableIndex { row: 0, column: 2 }]
    );
    assert_eq!(
        index[&8],
        vec![TableIndex { row: 0, column: 1 }, TableIndex { row: 2, column: 0 }]
    );
}

#[test]
fn locate_scans_in_row_major_order() {
    let rows = vec![
        AnonymousRow::new().chain_push(1).chain_push(10u32),
        AnonymousRow::new(),
        AnonymousRow::new().chain_push(20u32).chain_push(2).chain_push(30u32),
    ];
    assert_eq!(
        locate(&rows, 8),
        vec![
            TableIndex { row: 0, column: 1 },
            TableIndex { row: 2, column: 0 },
            TableIndex { row: 2, column: 2 }
        ]
    );
    assert_eq!(
        locate(&rows, 2),
        vec![TableIndex { row: 0, column: 0 }, TableIndex { row: 2, column: 1 }]
    );
    assert!(locate(&rows, 3).is_empty());
}
