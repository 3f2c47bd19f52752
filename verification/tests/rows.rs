use flecs_ecs::iter::Iter;
use flecs_ecs::observer_builder::ObserverBuilder;
use flecs_ecs::table_iter::{Batch, Column, Row};
use flecs_ecs::{EntityView, World};
use std::cell::RefCell;

fn owned(id: u64, size: usize, data: &[u8], writable: bool) -> Column {
    Column { id, data: data.to_vec(), size, is_ref: false, writable }
}

fn shared(id: u64, data: &[u8]) -> Column {
    Column { id, data: data.to_vec(), size: data.len(), is_ref: true, writable: true }
}

fn batch(entities: &[u64], columns: Vec<Column>) -> Batch {
    Batch { table: 7, entities: entities.to_vec(), sources: vec![0; columns.len()], columns }
}

#[test]
fn rows_are_read_at_row_times_size() {
    let c = owned(1, 2, &[10, 11, 20, 21, 30, 31], true);
    assert!(c.validate(3));
    assert!(!c.validate(2));
    assert!(!c.validate(4));
    assert_eq!(c.read(0, 3), vec![10, 11]);
    assert_eq!(c.read(1, 3), vec![20, 21]);
    assert_eq!(c.read(2, 3), vec![30, 31]);

    let r = shared(2, &[1, 2, 3]);
    assert!(r.validate(0));
    assert!(r.validate(5));
    assert_eq!(r.read(4, 5), vec![1, 2, 3]);

    let tag = owned(3, 0, &[], true);
    assert!(tag.validate(9));
    assert_eq!(tag.read(8, 9), Vec::<u8>::new());
    assert!(!owned(4, usize::MAX, &[1], true).validate(2));
}

#[test]
fn writes_reach_only_owned_writable_columns() {
    let mut c = owned(1, 2, &[10, 11, 20, 21, 30, 31], true);
    c.write(1, 3, &vec![7, 8]);
    assert_eq!(c.data, vec![10, 11, 7, 8, 30, 31]);
    c.write(1, 3, &vec![7, 8, 9]);
    assert_eq!(c.data, vec![10, 11, 7, 8, 30, 31]);

    let mut readonly = owned(1, 2, &[10, 11, 20, 21], false);
    readonly.write(0, 2, &vec![0, 0]);
    assert_eq!(readonly.data, vec![10, 11, 20, 21]);

    let mut r = shared(2, &[1, 2, 3]);
    r.write(0, 1, &vec![9, 9, 9]);
    assert_eq!(r.data, vec![1, 2, 3]);

    let mut b = batch(&[5, 6], vec![owned(1, 1, &[1, 2], true), shared(2, &[9])]);
    assert!(b.validate());
    assert_eq!(b.read(1).fields, vec![vec![2], vec![9]]);
    b.write(1, &Row { fields: vec![vec![8], vec![0]] });
    assert_eq!(b.columns[0].data, vec![1, 8]);
    assert_eq!(b.columns[1].data, vec![9]);
    b.write(0, &Row { fields: vec![vec![8]] });
    assert_eq!(b.columns[0].data, vec![1, 8]);
}

#[test]
fn run_each_walks_every_valid_batch_and_skips_the_others() {
    let good = batch(&[5, 6, 7], vec![owned(1, 1, &[1, 2, 3], true), shared(2, &[100])]);
    let bad = batch(&[8, 9], vec![owned(1, 2, &[1, 2, 3], true)]);
    let last = batch(&[10], vec![owned(1, 1, &[50], false)]);
    let mut it = Iter::new(0, 0, Vec::new(), vec![good, bad, last]);
    let calls = RefCell::new(Vec::new());
    ObserverBuilder::<()>::run_each(&mut it, &|row: &mut Row| {
        calls.borrow_mut().push(row.fields.clone());
        let base = row.fields.last().map(|f| f.first().copied().unwrap_or(0)).unwrap_or(0);
        row.fields[0][0] = row.fields[0][0].wrapping_add(base);
    });
    assert_eq!(
        calls.take(),
        vec![
            vec![vec![1], vec![100]],
            vec![vec![2], vec![100]],
            vec![vec![3], vec![100]],
            vec![vec![50]],
        ]
    );
    assert_eq!(it.batches[0].columns[0].data, vec![101, 102, 103]);
    assert_eq!(it.batches[0].columns[1].data, vec![100]);
    assert_eq!(it.batches[1].columns[0].data, vec![1, 2, 3]);
    assert_eq!(it.batches[2].columns[0].data, vec![50]);
    assert_eq!(it.cursor, 3);
    assert!(it.locked.is_empty());
    assert!(!it.next());
}

#[test]
fn run_each_entity_hands_out_the_entity_of_each_row() {
    let world = World::new();
    let mut it = Iter::new(0, 0, Vec::new(), vec![batch(&[5, 6], vec![owned(1, 1, &[1, 2], true)])]);
    let seen = RefCell::new(Vec::new());
    ObserverBuilder::<()>::run_each_entity(&world, &mut it, &|e: &mut EntityView, row: &mut Row| {
        seen.borrow_mut().push((e.id().0, row.fields[0][0]));
        row.fields[0][0] += 10;
    });
    assert_eq!(seen.take(), vec![(5, 1), (6, 2)]);
    assert_eq!(it.batches[0].columns[0].data, vec![11, 12]);
}

#[test]
fn entity_callbacks_run_once_for_each_row_of_the_current_batch() {
    let world = World::new();
    let mut b = batch(&[5, 6, 7], vec![]);
    b.sources = vec![42];
    let mut it = Iter::new(3, 4, vec![1], vec![b]);
    assert_eq!(it.count(), 0);
    assert_eq!(it.table(), 0);
    assert_eq!(it.field_src(0), 0);
    let count = RefCell::new(0);
    EntityView::run_empty(&mut it, &|| *count.borrow_mut() += 1);
    assert_eq!(count.take(), 0);

    assert!(it.next());
    assert_eq!(it.count(), 3);
    assert_eq!(it.table(), 7);
    assert_eq!(it.field_src(0), 42);
    assert_eq!(it.field_src(1), 0);
    assert_eq!(it.entity(&world, 2).id().0, 7);
    EntityView::run_empty(&mut it, &|| *count.borrow_mut() += 1);
    assert_eq!(count.take(), 3);

    let seen = RefCell::new(Vec::new());
    EntityView::run_empty_entity(&world, &mut it, &|e: &mut EntityView| {
        seen.borrow_mut().push(e.id().0)
    });
    assert_eq!(seen.take(), vec![42, 42, 42]);

    EntityView::run_payload(&mut it, &|p: &mut Vec<u8>| p[0] *= 2);
    assert_eq!(it.param, vec![8]);
    EntityView::run_payload_entity(&world, &mut it, &|e: &mut EntityView, p: &mut Vec<u8>| {
        p.push(e.id().0 as u8)
    });
    assert_eq!(it.param, vec![8, 42, 42, 42]);
    assert!(it.locked.is_empty());
    it.table_lock(1);
    it.table_lock(2);
    it.table_unlock();
    assert_eq!(it.locked, vec![1]);
    it.table_unlock();
    it.table_unlock();
    assert!(it.locked.is_empty());
}
