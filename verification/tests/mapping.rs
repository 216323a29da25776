use os_task::mm::{MapPermission, MemorySet, PageTableEntry, VirtAddr, VirtPageNum};
use os_task::task::{
    run_first_task, suspend_current_and_run_next, task_mmap, task_munmap, AppImage, TaskManager,
};
use os_task::trap::KernelEntry;

fn kernel() -> KernelEntry {
    KernelEntry { kernel_satp: 1, sstatus: 0, trap_handler: 2, trap_return: 3 }
}

fn running_manager(n: usize) -> TaskManager {
    let mut images: Vec<AppImage> = Vec::new();
    let mut id: usize = 0;
    while id < n {
        images.push(AppImage {
            memory_set: MemorySet::new_bare(id),
            entry_point: 0,
            user_sp: 0,
            kernel_sp: 0,
        });
        id += 1;
    }
    let mut manager = TaskManager::new(images, &kernel());
    run_first_task(&mut manager, 1);
    manager
}

fn lookup(manager: &TaskManager, id: usize, vpn: usize) -> Option<PageTableEntry> {
    manager.get_task(id).memory_set.translate(VirtPageNum(vpn))
}

fn mapped_pages(manager: &TaskManager, id: usize, upto: usize) -> Vec<usize> {
    let mut pages: Vec<usize> = Vec::new();
    let mut vpn: usize = 0;
    while vpn < upto {
        if lookup(manager, id, vpn).is_some() {
            pages.push(vpn);
        }
        vpn += 1;
    }
    pages
}

fn perm(read: bool, write: bool, execute: bool, user: bool) -> MapPermission {
    MapPermission { read, write, execute, user }
}

#[test]
fn mmap_maps_the_pages_with_the_permissions_asked_for() {
    let mut manager = running_manager(1);
    assert_eq!(task_mmap(&mut manager, 0x1000, 0x2000, 0b011), 0);
    for vpn in [1usize, 2usize] {
        let pte = lookup(&manager, 0, vpn).unwrap();
        assert!(pte.is_valid());
        assert!(pte.readable());
        assert!(pte.writable());
        assert!(pte.user());
        assert!(!pte.executable());
        assert_eq!(pte.permission, perm(true, true, false, true));
    }
    assert_eq!(lookup(&manager, 0, 0), None);
    assert_eq!(lookup(&manager, 0, 3), None);
    assert_eq!(mapped_pages(&manager, 0, 16), vec![1, 2]);
}

#[test]
fn mmap_of_each_permission_bit() {
    let mut manager = running_manager(1);
    assert_eq!(task_mmap(&mut manager, 0x1000, 0x1000, 0b001), 0);
    assert_eq!(task_mmap(&mut manager, 0x2000, 0x1000, 0b010), 0);
    assert_eq!(task_mmap(&mut manager, 0x3000, 0x1000, 0b100), 0);
    assert_eq!(task_mmap(&mut manager, 0x4000, 0x1000, 0b111), 0);
    assert_eq!(lookup(&manager, 0, 1).unwrap().permission, perm(true, false, false, true));
    assert_eq!(lookup(&manager, 0, 2).unwrap().permission, perm(false, true, false, true));
    assert_eq!(lookup(&manager, 0, 3).unwrap().permission, perm(false, false, true, true));
    assert_eq!(lookup(&manager, 0, 4).unwrap().permission, perm(true, true, true, true));
}

#[test]
fn mmap_rounds_the_length_up_to_pages() {
    let mut manager = running_manager(1);
    assert_eq!(task_mmap(&mut manager, 0x1000, 1, 1), 0);
    assert_eq!(mapped_pages(&manager, 0, 16), vec![1]);
    assert_eq!(task_mmap(&mut manager, 0x4000, 0x1001, 1), 0);
    assert_eq!(mapped_pages(&manager, 0, 16), vec![1, 4, 5]);
    assert_eq!(task_mmap(&mut manager, 0x8000, 0x1fff, 1), 0);
    assert_eq!(mapped_pages(&manager, 0, 16), vec![1, 4, 5, 8, 9]);
}

#[test]
fn mmap_of_no_bytes_maps_nothing() {
    let mut manager = running_manager(1);
    assert_eq!(task_mmap(&mut manager, 0x3000, 0, 1), 0);
    assert_eq!(task_mmap(&mut manager, 0, 0, 1), 0);
    assert_eq!(mapped_pages(&manager, 0, 16), Vec::<usize>::new());
    assert_eq!(task_mmap(&mut manager, 0x3000, 0x1000, 1), 0);
    assert_eq!(task_mmap(&mut manager, 0x3000, 0, 1), 0);
    assert_eq!(mapped_pages(&manager, 0, 16), vec![3]);
}

#[test]
fn mmap_unaligned_start_fails_and_changes_nothing() {
    let mut manager = running_manager(1);
    assert_eq!(task_mmap(&mut manager, 0x5000, 0x1000, 0b001), 0);
    assert_eq!(task_mmap(&mut manager, 0x1001, 0x1000, 0b011), -1);
    assert_eq!(task_mmap(&mut manager, 0x1fff, 0x1000, 0b011), -1);
    assert_eq!(task_mmap(&mut manager, 1, 0, 0b011), -1);
    assert_eq!(mapped_pages(&manager, 0, 16), vec![5]);
    assert_eq!(lookup(&manager, 0, 5).unwrap().permission, perm(true, false, false, true));
}

#[test]
fn mmap_bad_port_fails_and_changes_nothing() {
    let mut manager = running_manager(1);
    assert_eq!(task_mmap(&mut manager, 0x1000, 0x1000, 0), -1);
    assert_eq!(task_mmap(&mut manager, 0x1000, 0x1000, 0b1000), -1);
    assert_eq!(task_mmap(&mut manager, 0x1000, 0x1000, 0b1011), -1);
    assert_eq!(task_mmap(&mut manager, 0x1000, 0x1000, usize::MAX), -1);
    assert_eq!(mapped_pages(&manager, 0, 16), Vec::<usize>::new());
}

#[test]
fn mmap_beyond_the_last_address_fails() {
    let mut manager = running_manager(1);
    assert_eq!(task_mmap(&mut manager, 0x1000, usize::MAX, 1), -1);
    assert_eq!(task_mmap(&mut manager, usize::MAX - 0xfff, 0x1000, 1), -1);
    assert_eq!(mapped_pages(&manager, 0, 16), Vec::<usize>::new());
    assert_eq!(task_munmap(&mut manager, 0x1000, usize::MAX), -1);
}

#[test]
fn mmap_up_to_the_last_address() {
    let mut manager = running_manager(1);
    let last_page: usize = usize::MAX / 0x1000;
    assert_eq!(task_mmap(&mut manager, usize::MAX - 0xfff, 0xfff, 1), 0);
    assert!(lookup(&manager, 0, last_page).is_some());
    assert_eq!(lookup(&manager, 0, last_page - 1), None);
    assert_eq!(task_munmap(&mut manager, usize::MAX - 0xfff, 0xfff), 0);
    assert_eq!(lookup(&manager, 0, last_page), None);
}

#[test]
fn mmap_twice_overlapping_fails_and_keeps_the_first() {
    let mut manager = running_manager(1);
    assert_eq!(task_mmap(&mut manager, 0x2000, 0x3000, 0b001), 0);
    assert_eq!(task_mmap(&mut manager, 0x2000, 0x3000, 0b011), -1);
    assert_eq!(task_mmap(&mut manager, 0x4000, 0x2000, 0b011), -1);
    assert_eq!(task_mmap(&mut manager, 0x1000, 0x1001, 0b011), -1);
    assert_eq!(task_mmap(&mut manager, 0x0000, 0x8000, 0b011), -1);
    assert_eq!(task_mmap(&mut manager, 0x3000, 0x1, 0b011), -1);
    assert_eq!(mapped_pages(&manager, 0, 16), vec![2, 3, 4]);
    for vpn in [2usize, 3usize, 4usize] {
        assert_eq!(lookup(&manager, 0, vpn).unwrap().permission, perm(true, false, false, true));
    }
    // Ranges that only touch the first one are granted.
    assert_eq!(task_mmap(&mut manager, 0x1000, 0x1000, 0b010), 0);
    assert_eq!(task_mmap(&mut manager, 0x5000, 0x1000, 0b100), 0);
    assert_eq!(mapped_pages(&manager, 0, 16), vec![1, 2, 3, 4, 5]);
    assert_eq!(lookup(&manager, 0, 3).unwrap().permission, perm(true, false, false, true));
}

#[test]
fn munmap_with_a_hole_fails_and_unmaps_nothing() {
    let mut manager = running_manager(1);
    assert_eq!(task_mmap(&mut manager, 0x1000, 0x1000, 0b001), 0);
    assert_eq!(task_mmap(&mut manager, 0x3000, 0x1000, 0b011), 0);
    assert_eq!(task_munmap(&mut manager, 0x1000, 0x3000), -1);
    assert_eq!(task_munmap(&mut manager, 0x0000, 0x2000), -1);
    assert_eq!(task_munmap(&mut manager, 0x3000, 0x1001), -1);
    assert_eq!(task_munmap(&mut manager, 0x7000, 0x1000), -1);
    assert_eq!(mapped_pages(&manager, 0, 16), vec![1, 3]);
    assert_eq!(lookup(&manager, 0, 1).unwrap().permission, perm(true, false, false, true));
    assert_eq!(lookup(&manager, 0, 3).unwrap().permission, perm(true, true, false, true));
}

#[test]
fn munmap_unaligned_start_fails() {
    let mut manager = running_manager(1);
    assert_eq!(task_mmap(&mut manager, 0x1000, 0x2000, 0b001), 0);
    assert_eq!(task_munmap(&mut manager, 0x1800, 0x800), -1);
    assert_eq!(task_munmap(&mut manager, 0x1001, 0x1000), -1);
    assert_eq!(mapped_pages(&manager, 0, 16), vec![1, 2]);
}

#[test]
fn munmap_after_mmap_of_the_same_range() {
    let mut manager = running_manager(1);
    assert_eq!(task_mmap(&mut manager, 0x1000, 0x2000, 0b011), 0);
    assert_eq!(task_munmap(&mut manager, 0x1000, 0x2000), 0);
    assert_eq!(lookup(&manager, 0, 1), None);
    assert_eq!(lookup(&manager, 0, 2), None);
    assert_eq!(mapped_pages(&manager, 0, 16), Vec::<usize>::new());
    // The range is free again.
    assert_eq!(task_mmap(&mut manager, 0x1000, 0x2000, 0b100), 0);
    assert_eq!(lookup(&manager, 0, 2).unwrap().permission, perm(false, false, true, true));
}

#[test]
fn munmap_of_a_part_keeps_the_rest() {
    let mut manager = running_manager(1);
    assert_eq!(task_mmap(&mut manager, 0x1000, 0x5000, 0b101), 0);
    assert_eq!(task_munmap(&mut manager, 0x3000, 0x1000), 0);
    assert_eq!(mapped_pages(&manager, 0, 16), vec![1, 2, 4, 5]);
    assert_eq!(task_munmap(&mut manager, 0x1000, 0x1000), 0);
    assert_eq!(mapped_pages(&manager, 0, 16), vec![2, 4, 5]);
    assert_eq!(task_munmap(&mut manager, 0x5000, 0x1), 0);
    assert_eq!(mapped_pages(&manager, 0, 16), vec![2, 4]);
    for vpn in [2usize, 4usize] {
        assert_eq!(lookup(&manager, 0, vpn).unwrap().permission, perm(true, false, true, true));
    }
    assert_eq!(task_munmap(&mut manager, 0x2000, 0x3000), -1);
    assert_eq!(task_mmap(&mut manager, 0x3000, 0x1000, 0b010), 0);
    assert_eq!(task_munmap(&mut manager, 0x2000, 0x3000), 0);
    assert_eq!(mapped_pages(&manager, 0, 16), Vec::<usize>::new());
}

#[test]
fn munmap_across_two_mappings() {
    let mut manager = running_manager(1);
    assert_eq!(task_mmap(&mut manager, 0x1000, 0x2000, 0b001), 0);
    assert_eq!(task_mmap(&mut manager, 0x3000, 0x2000, 0b010), 0);
    assert_eq!(task_munmap(&mut manager, 0x2000, 0x2000), 0);
    assert_eq!(mapped_pages(&manager, 0, 16), vec![1, 4]);
    assert_eq!(lookup(&manager, 0, 1).unwrap().permission, perm(true, false, false, true));
    assert_eq!(lookup(&manager, 0, 4).unwrap().permission, perm(false, true, false, true));
}

#[test]
fn munmap_of_no_bytes_unmaps_nothing() {
    let mut manager = running_manager(1);
    assert_eq!(task_mmap(&mut manager, 0x1000, 0x1000, 0b001), 0);
    assert_eq!(task_munmap(&mut manager, 0x1000, 0), 0);
    assert_eq!(task_munmap(&mut manager, 0x9000, 0), 0);
    assert_eq!(mapped_pages(&manager, 0, 16), vec![1]);
}

#[test]
fn requests_act_on_the_current_task_only() {
    let mut manager = running_manager(2);
    assert_eq!(task_mmap(&mut manager, 0x1000, 0x1000, 0b001), 0);
    suspend_current_and_run_next(&mut manager, 2);
    assert_eq!(manager.get_current_id(), 1);
    assert_eq!(task_munmap(&mut manager, 0x1000, 0x1000), -1);
    assert_eq!(task_mmap(&mut manager, 0x1000, 0x2000, 0b010), 0);
    assert_eq!(mapped_pages(&manager, 0, 16), vec![1]);
    assert_eq!(mapped_pages(&manager, 1, 16), vec![1, 2]);
    assert_eq!(lookup(&manager, 0, 1).unwrap().permission, perm(true, false, false, true));
    assert_eq!(lookup(&manager, 1, 1).unwrap().permission, perm(false, true, false, true));
    assert_eq!(manager.mmap(0x2000, 0x1000, 0b001), -1);
    assert_eq!(manager.munmap(0x2000, 0x1000), 0);
    assert_eq!(mapped_pages(&manager, 1, 16), vec![1]);
}

#[test]
fn mmap_sees_the_pages_of_the_program() {
    let mut memory_set = MemorySet::new_bare(9);
    memory_set.insert_framed_area(VirtPageNum(0x10), VirtPageNum(0x12), perm(true, false, true, true));
    let images = vec![AppImage { memory_set, entry_point: 0x10000, user_sp: 0, kernel_sp: 0 }];
    let mut manager = TaskManager::new(images, &kernel());
    run_first_task(&mut manager, 1);
    assert_eq!(task_mmap(&mut manager, 0x11000, 0x1000, 0b011), -1);
    assert_eq!(task_mmap(&mut manager, 0xf000, 0x1001, 0b011), -1);
    assert_eq!(task_mmap(&mut manager, 0x12000, 0x1000, 0b011), 0);
    assert_eq!(lookup(&manager, 0, 0x11).unwrap().permission, perm(true, false, true, true));
    assert_eq!(lookup(&manager, 0, 0x12).unwrap().permission, perm(true, true, false, true));
}

#[test]
fn memory_set_starts_empty() {
    let memory_set = MemorySet::new_bare(77);
    assert_eq!(memory_set.token(), 77);
    assert_eq!(memory_set.translate(VirtPageNum(0)), None);
    assert_eq!(memory_set.translate(VirtPageNum(usize::MAX)), None);
}

#[test]
fn memory_set_insert_and_translate() {
    let mut memory_set = MemorySet::new_bare(0);
    memory_set.insert_framed_area(VirtPageNum(4), VirtPageNum(7), MapPermission::R().union(MapPermission::W()));
    memory_set.insert_framed_area(VirtPageNum(7), VirtPageNum(8), MapPermission::X());
    memory_set.insert_framed_area(VirtPageNum(2), VirtPageNum(2), MapPermission::U());
    assert_eq!(memory_set.translate(VirtPageNum(2)), None);
    assert_eq!(memory_set.translate(VirtPageNum(3)), None);
    for vpn in [4usize, 5usize, 6usize] {
        let pte = memory_set.translate(VirtPageNum(vpn)).unwrap();
        assert_eq!(pte, PageTableEntry { valid: true, permission: perm(true, true, false, false) });
    }
    let pte = memory_set.translate(VirtPageNum(7)).unwrap();
    assert!(pte.is_valid() && pte.executable() && !pte.readable() && !pte.writable() && !pte.user());
    assert_eq!(memory_set.translate(VirtPageNum(8)), None);
    assert_eq!(memory_set.token(), 0);
}

#[test]
fn memory_set_munmap_splits_an_area() {
    let mut memory_set = MemorySet::new_bare(0);
    memory_set.insert_framed_area(VirtPageNum(10), VirtPageNum(20), MapPermission::R());
    memory_set.munmap(VirtPageNum(15));
    memory_set.munmap(VirtPageNum(10));
    memory_set.munmap(VirtPageNum(19));
    memory_set.munmap(VirtPageNum(15));
    memory_set.munmap(VirtPageNum(3));
    let mut left: Vec<usize> = Vec::new();
    let mut vpn: usize = 0;
    while vpn < 30 {
        if let Some(pte) = memory_set.translate(VirtPageNum(vpn)) {
            assert_eq!(pte.permission, perm(true, false, false, false));
            left.push(vpn);
        }
        vpn += 1;
    }
    assert_eq!(left, vec![11, 12, 13, 14, 16, 17, 18]);
    // The pages in between can be mapped again, with another permission.
    memory_set.insert_framed_area(VirtPageNum(15), VirtPageNum(16), MapPermission::W());
    assert_eq!(memory_set.translate(VirtPageNum(15)).unwrap().permission, perm(false, true, false, false));
    assert_eq!(memory_set.translate(VirtPageNum(14)).unwrap().permission, perm(true, false, false, false));
}

#[test]
fn memory_set_munmap_removes_one_page_areas() {
    let mut memory_set = MemorySet::new_bare(0);
    memory_set.insert_framed_area(VirtPageNum(1), VirtPageNum(2), MapPermission::R());
    memory_set.insert_framed_area(VirtPageNum(3), VirtPageNum(4), MapPermission::W());
    memory_set.insert_framed_area(VirtPageNum(5), VirtPageNum(6), MapPermission::X());
    memory_set.munmap(VirtPageNum(1));
    assert_eq!(memory_set.translate(VirtPageNum(1)), None);
    assert_eq!(memory_set.translate(VirtPageNum(3)).unwrap().permission, perm(false, true, false, false));
    assert_eq!(memory_set.translate(VirtPageNum(5)).unwrap().permission, perm(false, false, true, false));
    memory_set.munmap(VirtPageNum(5));
    memory_set.munmap(VirtPageNum(3));
    assert_eq!(memory_set.translate(VirtPageNum(3)), None);
    assert_eq!(memory_set.translate(VirtPageNum(5)), None);
}

#[test]
fn addresses_round_to_pages() {
    assert_eq!(VirtAddr(0).floor(), VirtPageNum(0));
    assert_eq!(VirtAddr(0).ceil(), VirtPageNum(0));
    assert_eq!(VirtAddr(1).floor(), VirtPageNum(0));
    assert_eq!(VirtAddr(1).ceil(), VirtPageNum(1));
    assert_eq!(VirtAddr(0xfff).ceil(), VirtPageNum(1));
    assert_eq!(VirtAddr(0x1000).floor(), VirtPageNum(1));
    assert_eq!(VirtAddr(0x1000).ceil(), VirtPageNum(1));
    assert_eq!(VirtAddr(0x1001).ceil(), VirtPageNum(2));
    assert_eq!(VirtAddr(0x1fff).floor(), VirtPageNum(1));
    assert_eq!(VirtAddr(usize::MAX).floor(), VirtPageNum(usize::MAX / 0x1000));
    assert_eq!(VirtAddr(usize::MAX).ceil(), VirtPageNum(usize::MAX / 0x1000 + 1));
}

#[test]
fn permissions_and_their_bits() {
    assert_eq!(MapPermission::R().bits(), 0x02);
    assert_eq!(MapPermission::W().bits(), 0x04);
    assert_eq!(MapPermission::X().bits(), 0x08);
    assert_eq!(MapPermission::U().bits(), 0x10);
    assert_eq!(MapPermission::empty().bits(), 0);
    assert_eq!(MapPermission::R().union(MapPermission::U()).bits(), 0x12);
    assert_eq!(MapPermission::from_bits(0x1e), Some(perm(true, true, true, true)));
    assert_eq!(MapPermission::from_bits(0x06), Some(perm(true, true, false, false)));
    assert_eq!(MapPermission::from_bits(0), Some(MapPermission::empty()));
    assert_eq!(MapPermission::from_bits(0x01), None);
    assert_eq!(MapPermission::from_bits(0x20), None);
    assert_eq!(MapPermission::from_bits(0xff), None);
    let mut bits: u8 = 0;
    while bits < 0x20 {
        if bits & 1 == 0 {
            assert_eq!(MapPermission::from_bits(bits).unwrap().bits(), bits);
        }
        bits += 1;
    }
}

#[test]
fn permissions_of_a_request() {
    assert_eq!(MapPermission::from_port(0), None);
    assert_eq!(MapPermission::from_port(1), Some(perm(true, false, false, true)));
    assert_eq!(MapPermission::from_port(2), Some(perm(false, true, false, true)));
    assert_eq!(MapPermission::from_port(3), Some(perm(true, true, false, true)));
    assert_eq!(MapPermission::from_port(4), Some(perm(false, false, true, true)));
    assert_eq!(MapPermission::from_port(5), Some(perm(true, false, true, true)));
    assert_eq!(MapPermission::from_port(6), Some(perm(false, true, true, true)));
    assert_eq!(MapPermission::from_port(7), Some(perm(true, true, true, true)));
    assert_eq!(MapPermission::from_port(8), None);
    assert_eq!(MapPermission::from_port(9), None);
    assert_eq!(MapPermission::from_port(0x100), None);
}

#[test]
fn page_table_entries() {
    let empty = PageTableEntry::empty();
    assert!(!empty.is_valid());
    assert!(!empty.readable() && !empty.writable() && !empty.executable() && !empty.user());
    let pte = PageTableEntry::new(perm(true, false, true, true));
    assert!(pte.is_valid());
    assert!(pte.readable() && !pte.writable() && pte.executable() && pte.user());
}
