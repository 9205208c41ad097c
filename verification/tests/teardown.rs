//! Tearing address spaces down.
use moss_kernel::error::KernelError;
use moss_kernel::memory::address::PA;
use moss_kernel::memory::paging::arena::PageTableArena;
use moss_kernel::memory::paging::table::{Descriptor, PageTableMapper, WalkContext};
use moss_kernel::memory::paging::x86_64::tear_down_address_space;
use std::collections::HashSet;

/// Where the tables of the tests live.
const TABLES: usize = 0x100_0000_0000;

struct TestHarness {
    arena: PageTableArena,
    root_table: PA,
    tables: Vec<PA>,
}

impl TestHarness {
    fn new() -> Self {
        let root_table = PA::from_value(TABLES);
        let mut arena = PageTableArena::new();
        arena.add_table(root_table);
        TestHarness {
            arena,
            root_table,
            tables: vec![root_table],
        }
    }

    fn table_below(&mut self, table: usize, idx: usize) -> usize {
        match self.arena.entry(self.tables[table], idx).unwrap() {
            Descriptor::Table(pa) => self.tables.iter().position(|t| *t == pa).unwrap(),
            _ => {
                let pa = PA::from_value(TABLES + self.tables.len() * 4096);
                self.arena.add_table(pa);
                self.tables.push(pa);
                self.arena.set_entry(table, idx, Descriptor::Table(pa));
                self.tables.len() - 1
            }
        }
    }

    fn map_4k_pages(&mut self, pa: usize, va: usize, pages: usize) {
        for page in 0..pages {
            let va = va + page * 4096;
            let mut table = 0;
            for shift in [39, 30, 21] {
                table = self.table_below(table, (va >> shift) & 511);
            }
            self.arena.set_entry(
                table,
                (va >> 12) & 511,
                Descriptor::Page(PA::from_value(pa + page * 4096)),
            );
        }
    }

    fn tear_down(self) -> (Result<(), KernelError>, Vec<PA>) {
        let ctx = WalkContext { mapper: self.arena };
        let mut freed = Vec::new();
        let r = tear_down_address_space(self.root_table, &ctx, &mut freed);
        (r, freed)
    }
}

fn capture_freed_pages(harness: TestHarness) -> HashSet<usize> {
    let (r, freed) = harness.tear_down();
    assert_eq!(r, Ok(()));
    let mut freed_set = HashSet::new();
    for pa in freed {
        if !freed_set.insert(pa.value()) {
            panic!(
                "Double free detected! Physical Address {:?} was freed twice.",
                pa
            );
        }
    }
    freed_set
}

#[test]
fn teardown_empty_table() {
    let harness = TestHarness::new();
    let root = harness.root_table.value();

    let freed = capture_freed_pages(harness);

    assert_eq!(freed.len(), 1);
    assert!(freed.contains(&root));
}

#[test]
fn teardown_single_page_hierarchy() {
    let mut harness = TestHarness::new();
    let va = 0x1_0000_0000;
    let pa = 0x8_0000;
    let root = harness.root_table.value();

    harness.map_4k_pages(pa, va, 1);

    let freed = capture_freed_pages(harness);

    // The page, a table of each of the lower levels, and the root.
    assert_eq!(freed.len(), 5);
    assert!(freed.contains(&pa));
    assert!(freed.contains(&root));
}

#[test]
fn teardown_sparse_ptable() {
    let mut harness = TestHarness::new();

    let va1 = 0x1_0000_0000;
    let pa1 = 0xAAAA_0000;

    // The last entry of the same table.
    let va2 = va1 + 511 * 4096;
    let pa2 = 0xBBBB_0000;

    harness.map_4k_pages(pa1, va1, 1);
    harness.map_4k_pages(pa2, va2, 1);

    let freed = capture_freed_pages(harness);

    assert_eq!(freed.len(), 6);
    assert!(freed.contains(&pa1));
    assert!(freed.contains(&pa2));
}

#[test]
fn teardown_discontiguous_tables() {
    let mut harness = TestHarness::new();

    harness.map_4k_pages(0xA0000, 0x1_0000_0000, 1);
    harness.map_4k_pages(0xB0000, 0x400_0000_0000, 1);

    let freed = capture_freed_pages(harness);

    // Two branches of a page and three tables each, and the root.
    assert_eq!(freed.len(), 9);
}

#[test]
fn teardown_full_ptable() {
    let mut harness = TestHarness::new();

    harness.map_4k_pages(0x10_0000, 0x1_0000_0000, 512);

    let freed = capture_freed_pages(harness);

    assert_eq!(freed.len(), 512 + 4);
}

#[test]
fn teardown_does_not_free_kernel_tables() {
    let mut harness = TestHarness::new();

    let user_pa = 0x1_0000;
    harness.map_4k_pages(user_pa, 0x0000_0001_0000_0000, 1);

    // The first entry of the upper half.
    let kernel_pa = 0x2_0000;
    harness.map_4k_pages(kernel_pa, 0xFFFF_8000_0001_0000usize, 1);

    let freed = capture_freed_pages(harness);

    assert_eq!(freed.len(), 5);
    assert!(freed.contains(&user_pa));
    assert!(!freed.contains(&kernel_pa));
}

#[test]
fn tables_go_after_what_they_refer_to() {
    let mut harness = TestHarness::new();
    harness.map_4k_pages(0x8_0000, 0x1_0000_0000, 1);
    let (r, freed) = harness.tear_down();
    assert_eq!(r, Ok(()));
    let freed: Vec<usize> = freed.iter().map(|pa| pa.value()).collect();
    assert_eq!(
        freed,
        vec![
            0x8_0000,
            TABLES + 3 * 4096,
            TABLES + 2 * 4096,
            TABLES + 4096,
            TABLES
        ]
    );
}

#[test]
fn a_missing_table_stops_the_walk() {
    let mut harness = TestHarness::new();
    harness.map_4k_pages(0x8_0000, 0x1_0000_0000, 1);
    harness
        .arena
        .set_entry(0, 200, Descriptor::Table(PA::from_value(0xdead_0000)));
    let (r, freed) = harness.tear_down();
    assert_eq!(r, Err(KernelError::InvalidValue));
    // What came before the missing table was given up, the root was not.
    assert_eq!(freed.len(), 4);
    assert!(!freed.contains(&PA::from_value(TABLES)));
}

#[test]
fn large_pages_are_not_given_up() {
    let mut harness = TestHarness::new();
    harness.map_4k_pages(0x8_0000, 0x1_0000_0000, 1);
    let middle = 2;
    harness
        .arena
        .set_entry(middle, 7, Descriptor::Page(PA::from_value(0x20_0000)));
    let freed = capture_freed_pages(harness);
    assert_eq!(freed.len(), 5);
    assert!(!freed.contains(&0x20_0000));
}
