use rcore_kernel::syscall::process::{sys_mmap, sys_munmap, MAX_MAP_SIZE};
use rcore_kernel::task::manager::Kernel;
use rcore_kernel::task::task::AppImage;
use rcore_kernel::trap::TrapContext;
use rcore_kernel::task::memory_set::{MapPermission, MemorySet};
use rcore_kernel::task::{add_initproc, mmap, munmap};

fn app_image(memory_set: MemorySet) -> AppImage {
    AppImage { memory_set, trap_cx: TrapContext { x: [0; 32], sstatus: 0, sepc: 0x1000 } }
}

fn booted() -> Kernel {
    let mut k = Kernel::new(app_image(MemorySet::new_bare()));
    add_initproc(&mut k);
    assert_eq!(k.run_next_task(), Some(0));
    k
}

#[test]
fn mmap_maps_the_requested_pages() {
    let mut k = booted();
    assert_eq!(sys_mmap(&mut k, 0x1000, 0x2000, 3), 0);
    assert!(!k.current_find_vpn(0));
    assert!(k.current_find_vpn(1));
    assert!(k.current_find_vpn(2));
    assert!(!k.current_find_vpn(3));
}

#[test]
fn mmap_rounds_the_length_up_to_pages() {
    let mut k = booted();
    assert_eq!(sys_mmap(&mut k, 0x10000, 1, 7), 0);
    assert!(k.current_find_vpn(0x10));
    assert!(!k.current_find_vpn(0x11));
    assert_eq!(sys_mmap(&mut k, 0x20000, 0x1001, 1), 0);
    assert!(k.current_find_vpn(0x20));
    assert!(k.current_find_vpn(0x21));
    assert!(!k.current_find_vpn(0x22));
}

#[test]
fn mmap_rejects_bad_arguments() {
    let mut k = booted();
    assert_eq!(sys_mmap(&mut k, 0x1000, 0, 3), 0);
    assert!(!k.current_find_vpn(1));
    assert_eq!(sys_mmap(&mut k, 0x1001, 0x1000, 3), -1);
    assert_eq!(sys_mmap(&mut k, 0x1000, 0x1000, 0), -1);
    assert_eq!(sys_mmap(&mut k, 0x1000, 0x1000, 8), -1);
    assert_eq!(sys_mmap(&mut k, 0x1000, 0x1000, 9), -1);
    assert_eq!(sys_mmap(&mut k, 0x1000, MAX_MAP_SIZE + 1, 3), -1);
    assert!(!k.current_find_vpn(1));
    assert_eq!(sys_mmap(&mut k, 0x1000, MAX_MAP_SIZE, 3), 0);
    assert!(k.current_find_vpn(1));
    assert!(k.current_find_vpn(0x40000));
    assert!(!k.current_find_vpn(0x40001));
}

#[test]
fn mmap_refuses_already_mapped_pages() {
    let mut k = booted();
    assert_eq!(sys_mmap(&mut k, 0x3000, 0x1000, 1), 0);
    assert_eq!(sys_mmap(&mut k, 0x2000, 0x2000, 1), -1);
    assert!(!k.current_find_vpn(2));
    assert_eq!(sys_mmap(&mut k, 0x2000, 0x1000, 2), 0);
    assert!(k.current_find_vpn(2));
}

#[test]
fn munmap_undoes_mmap() {
    let mut k = booted();
    assert_eq!(sys_mmap(&mut k, 0x5000, 0x3000, 5), 0);
    assert_eq!(sys_munmap(&mut k, 0x5000, 0x3000), 0);
    assert!(!k.current_find_vpn(5));
    assert!(!k.current_find_vpn(6));
    assert!(!k.current_find_vpn(7));
    assert_eq!(sys_munmap(&mut k, 0x5000, 0x3000), -1);
    assert_eq!(sys_mmap(&mut k, 0x5000, 0x3000, 5), 0);
}

#[test]
fn munmap_rejects_bad_arguments_and_unmapped_pages() {
    let mut k = booted();
    assert_eq!(sys_mmap(&mut k, 0x1000, 0x1000, 3), 0);
    assert_eq!(sys_munmap(&mut k, 0x1000, 0), 0);
    assert_eq!(sys_munmap(&mut k, 0x1800, 0x1000), -1);
    assert_eq!(sys_munmap(&mut k, 0x1000, MAX_MAP_SIZE + 1), -1);
    assert_eq!(sys_munmap(&mut k, 0x1000, 0x2000), -1);
    assert!(k.current_find_vpn(1));
    assert_eq!(sys_munmap(&mut k, 0x1000, 1), 0);
    assert!(!k.current_find_vpn(1));
}

#[test]
fn mmap_with_unaligned_end_maps_the_last_touched_page() {
    let mut k = booted();
    assert_eq!(mmap(&mut k, 0x1000, 0x1800, 1), 0);
    assert!(k.current_find_vpn(1));
    assert!(k.current_find_vpn(2));
    assert!(!k.current_find_vpn(3));
    // munmap checks and unmaps the pages before the one holding the end
    assert_eq!(munmap(&mut k, 0x1000, 0x1800), 0);
    assert!(!k.current_find_vpn(1));
    assert!(k.current_find_vpn(2));
}

#[test]
fn memory_set_area_and_recycle() {
    let mut m = MemorySet::new_bare();
    let p = MapPermission { r: true, w: true, x: false, u: true };
    m.insert_framed_area(0x1800, 0x3001, p);
    assert!(!m.find_vpn(0));
    assert!(m.find_vpn(1));
    assert!(m.find_vpn(2));
    assert!(m.find_vpn(3));
    assert!(!m.find_vpn(4));
    let copy = MemorySet::from_existed_user(&m);
    assert!(copy.find_vpn(3));
    m.recycle_data_pages();
    assert!(!m.find_vpn(1));
    assert!(copy.find_vpn(1));
}
