use faisca::renderer::alloc_table::{
    BufferAllocCell, BufferAllocCellStatus, BufferAllocTable, TableOp,
};

fn total(table: &BufferAllocTable) -> u64 {
    table.cells().iter().map(|c| c.length).fold(0, |x, a| x + a)
}

fn free_total(table: &BufferAllocTable) -> u64 {
    table
        .cells()
        .iter()
        .filter(|c| c.status == BufferAllocCellStatus::Free)
        .map(|c| c.length)
        .sum()
}

fn no_adjacent_free(table: &BufferAllocTable) -> bool {
    table.cells().windows(2).all(|w| {
        !(w[0].status == BufferAllocCellStatus::Free && w[1].status == BufferAllocCellStatus::Free)
    })
}

#[test]
fn alloc_table_test() {
    let size = 256;
    let alignment = 8;
    let mut alloc_table = BufferAllocTable::new(size, alignment);

    assert!(alloc_table.try_fit(257).is_none());
    assert_eq!(alloc_table.cells()[0].status, BufferAllocCellStatus::Free);
    assert_eq!(alloc_table.cells()[0].length, 256);

    assert_eq!(alloc_table.try_fit(256), Some(0));

    alloc_table.free(0);

    assert_eq!(alloc_table.cells().iter().map(|c| c.length).fold(0, |x, a| x + a), 256);

    assert_eq!(alloc_table.try_fit(128), Some(0));
    assert_eq!(alloc_table.try_fit(128), Some(128));
    assert!(alloc_table.try_fit(128).is_none());

    assert_eq!(alloc_table.cells().iter().map(|c| c.length).fold(0, |x, a| x + a), 256);

    alloc_table.free(0);

    assert_eq!(alloc_table.cells().iter().map(|c| c.length).fold(0, |x, a| x + a), 256);

    assert_eq!(alloc_table.try_fit(7), Some(0));
    assert_eq!(alloc_table.try_fit(7), Some(8));
    assert_eq!(alloc_table.try_fit(5), Some(16));

    assert_eq!(alloc_table.cells().iter().map(|c| c.length).fold(0, |x, a| x + a), 256);
}

#[test]
fn new_table_is_one_free_cell() {
    let table = BufferAllocTable::new(256, 8);
    assert_eq!(
        table.cells().as_slice(),
        &[BufferAllocCell { length: 256, status: BufferAllocCellStatus::Free }]
    );
    assert_eq!(table.alignment_requirement(), 8);
}

#[test]
fn two_halves_fill_the_table() {
    let mut table = BufferAllocTable::new(256, 8);
    assert_eq!(table.try_fit(128), Some(0));
    assert_eq!(table.try_fit(128), Some(128));
    assert_eq!(table.try_fit(1), None);
    assert_eq!(
        table.cells().as_slice(),
        &[
            BufferAllocCell { length: 128, status: BufferAllocCellStatus::Occupied },
            BufferAllocCell { length: 128, status: BufferAllocCellStatus::Occupied },
        ]
    );
}

#[test]
fn seven_units_take_eight() {
    let mut table = BufferAllocTable::new(256, 8);
    assert_eq!(table.try_fit(7), Some(0));
    assert_eq!(free_total(&table), 248);
    assert_eq!(
        table.cells().as_slice(),
        &[
            BufferAllocCell { length: 8, status: BufferAllocCellStatus::Occupied },
            BufferAllocCell { length: 248, status: BufferAllocCellStatus::Free },
        ]
    );
    let next = table.try_fit(3).unwrap();
    assert_eq!(next, 8);
    assert_eq!(next % 8, 0);
    assert_eq!(total(&table), 256);
}

#[test]
fn freeing_in_order_collapses_the_table() {
    let mut table = BufferAllocTable::new(256, 8);
    assert_eq!(table.try_fit(128), Some(0));
    assert_eq!(table.try_fit(128), Some(128));
    table.free(0);
    assert!(no_adjacent_free(&table));
    table.free(128);
    assert_eq!(
        table.cells().as_slice(),
        &[BufferAllocCell { length: 256, status: BufferAllocCellStatus::Free }]
    );
}

#[test]
fn freeing_in_reverse_order_collapses_the_table() {
    let mut table = BufferAllocTable::new(256, 8);
    assert_eq!(table.try_fit(128), Some(0));
    assert_eq!(table.try_fit(128), Some(128));
    table.free(128);
    assert!(no_adjacent_free(&table));
    table.free(0);
    assert_eq!(
        table.cells().as_slice(),
        &[BufferAllocCell { length: 256, status: BufferAllocCellStatus::Free }]
    );
}

#[test]
fn freeing_the_middle_merges_both_neighbours() {
    let mut table = BufferAllocTable::new(64, 8);
    assert_eq!(table.try_fit(8), Some(0));
    assert_eq!(table.try_fit(8), Some(8));
    assert_eq!(table.try_fit(8), Some(16));
    assert_eq!(table.try_fit(40), Some(24));
    table.free(0);
    table.free(16);
    assert_eq!(
        table.cells().as_slice(),
        &[
            BufferAllocCell { length: 8, status: BufferAllocCellStatus::Free },
            BufferAllocCell { length: 8, status: BufferAllocCellStatus::Occupied },
            BufferAllocCell { length: 8, status: BufferAllocCellStatus::Free },
            BufferAllocCell { length: 40, status: BufferAllocCellStatus::Occupied },
        ]
    );
    table.free(8);
    assert_eq!(
        table.cells().as_slice(),
        &[
            BufferAllocCell { length: 24, status: BufferAllocCellStatus::Free },
            BufferAllocCell { length: 40, status: BufferAllocCellStatus::Occupied },
        ]
    );
    assert!(no_adjacent_free(&table));
    assert_eq!(total(&table), 64);
}

#[test]
fn free_of_an_unknown_offset_changes_nothing() {
    let mut table = BufferAllocTable::new(64, 8);
    assert_eq!(table.try_fit(16), Some(0));
    let before = table.cells().clone();
    table.free(8);
    assert_eq!(table.cells(), &before);
    table.free(16);
    assert_eq!(table.cells(), &before);
}

#[test]
fn request_beyond_free_capacity_is_refused_whole() {
    let mut table = BufferAllocTable::new(64, 8);
    assert_eq!(table.try_fit(40), Some(0));
    let before = table.cells().clone();
    assert_eq!(table.try_fit(25), None);
    assert_eq!(table.cells(), &before);
    assert_eq!(table.try_fit(24), Some(40));
}

#[test]
fn first_fit_takes_the_earliest_cell_that_is_long_enough() {
    let mut table = BufferAllocTable::new(64, 8);
    assert_eq!(table.try_fit(8), Some(0));
    assert_eq!(table.try_fit(8), Some(8));
    assert_eq!(table.try_fit(16), Some(16));
    assert_eq!(table.try_fit(8), Some(32));
    table.free(0);
    table.free(16);
    // the free cells are 8 at 0, 16 at 16 and 24 at 40
    assert_eq!(table.try_fit(16), Some(16));
    assert_eq!(table.try_fit(8), Some(0));
    assert_eq!(table.try_fit(24), Some(40));
    assert_eq!(table.try_fit(1), None);
}

#[test]
fn rounding_that_leaves_the_word_is_refused() {
    let mut table = BufferAllocTable::new(u64::MAX, 8);
    assert_eq!(table.try_fit(u64::MAX), None);
    assert_eq!(table.try_fit(u64::MAX - 7), Some(0));
    assert_eq!(total(&table), u64::MAX);
}

#[test]
fn capacity_is_kept_over_a_run_of_requests() {
    let mut table = BufferAllocTable::new(1024, 16);
    let mut held: Vec<u64> = Vec::new();
    for round in 0..40u64 {
        let size = (round * 37) % 200 + 1;
        if let Some(offset) = table.try_fit(size) {
            assert_eq!(offset % 16, 0);
            held.push(offset);
        }
        if round % 3 == 2 && !held.is_empty() {
            let offset = held.remove((round as usize) % held.len());
            table.free(offset);
            assert!(no_adjacent_free(&table));
        }
        assert_eq!(total(&table), 1024);
    }
    for offset in held {
        table.free(offset);
        assert!(no_adjacent_free(&table));
    }
    assert_eq!(
        table.cells().as_slice(),
        &[BufferAllocCell { length: 1024, status: BufferAllocCellStatus::Free }]
    );
}

#[test]
fn requests_as_values_do_what_the_calls_do() {
    let ops = [
        TableOp::Allocate(100),
        TableOp::Allocate(28),
        TableOp::Free(0),
        TableOp::Allocate(200),
        TableOp::Allocate(50),
        TableOp::Free(104),
        TableOp::Free(7),
        TableOp::Allocate(0),
    ];
    let mut by_value = BufferAllocTable::new(256, 8);
    let mut by_call = BufferAllocTable::new(256, 8);
    let mut offsets = Vec::new();
    for op in ops {
        let expected = match op {
            TableOp::Allocate(size) => by_call.try_fit(size),
            TableOp::Free(position) => {
                by_call.free(position);
                None
            }
        };
        let offset = by_value.apply(op);
        assert_eq!(offset, expected);
        assert_eq!(by_value.cells(), by_call.cells());
        assert_eq!(total(&by_value), 256);
        offsets.push(offset);
    }
    assert_eq!(
        offsets,
        vec![Some(0), Some(104), None, None, Some(0), None, None, Some(56)]
    );
}

#[test]
fn freeing_an_allocation_restores_the_table() {
    let mut table = BufferAllocTable::new(128, 8);
    assert_eq!(table.try_fit(16), Some(0));
    assert_eq!(table.try_fit(24), Some(16));
    assert_eq!(table.try_fit(8), Some(40));
    table.free(16);
    for size in [1u64, 8, 9, 24, 25, 80, 81] {
        let before = table.cells().clone();
        match table.try_fit(size) {
            Some(offset) => table.free(offset),
            None => assert!(size > 80),
        }
        assert_eq!(table.cells(), &before, "after a request of {size} units");
    }
}
