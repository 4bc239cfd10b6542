use sysguard::ebpf_monitor::SyscallStat;
use sysguard::memory_randomizer::MemoryLayout;
use sysguard::recovery_snapshot::{
    copy_of, CryptoStateSnapshot, FileDescriptor, KernelProcess, MemoryLayoutSnapshot,
    ProcessSnapshot, ProcessState, QuantumKernel, RegisterSet, SnapshotError, SnapshotManager,
    SyscallStateSnapshot, DEFAULT_MAX_SNAPSHOTS,
};

fn registers(seed: u64) -> RegisterSet {
    RegisterSet {
        instruction_pointer: 0x40_0000 + seed,
        stack_pointer: 0x7000_0000 + seed,
        frame_pointer: 0x7000_0100 + seed,
        flags: seed,
    }
}

fn layout(pid: u32) -> MemoryLayout {
    MemoryLayout {
        pid,
        stack_base: 0x7000_1000,
        heap_base: 0x1000_2000,
        mmap_base: 0x2000_3000,
        vdso_offset: 0x2345,
        layout_hash: [pid as u8; 32],
        regeneration_count: 2,
    }
}

fn kernel() -> QuantumKernel {
    QuantumKernel {
        processes: vec![
            (
                1,
                KernelProcess {
                    children: vec![20, 30],
                    registers: registers(1),
                    open_files: vec![
                        FileDescriptor { fd: 0, inode: 11 },
                        FileDescriptor { fd: 1, inode: 12 },
                    ],
                },
            ),
            (20, KernelProcess { children: vec![], registers: registers(2), open_files: vec![] }),
            (
                30,
                KernelProcess {
                    children: vec![31],
                    registers: registers(3),
                    open_files: vec![FileDescriptor { fd: 7, inode: 99 }],
                },
            ),
        ],
        memory_layouts: vec![layout(1), layout(20)],
        syscall_state: SyscallStateSnapshot {
            stats: vec![(
                59,
                SyscallStat { count: 3, error_count: 1, avg_duration_ns: 10, suspicious_score: 400 },
            )],
        },
        crypto_state: CryptoStateSnapshot { public_key: vec![9u8; 32] },
    }
}

#[test]
fn manager_starts_with_ten_snapshots_to_keep() {
    let manager = SnapshotManager::new("/var/lib/sentinel/snapshots");
    assert_eq!(manager.snapshot_dir(), "/var/lib/sentinel/snapshots");
    assert_eq!(manager.max_snapshots(), 10);
    assert_eq!(DEFAULT_MAX_SNAPSHOTS, 10);
}

#[test]
fn processes_are_captured_frozen() {
    let manager = SnapshotManager::new("snapshots");
    let captured = manager.capture_processes(&kernel()).unwrap();
    assert_eq!(captured.len(), 3);
    assert_eq!(
        captured[0],
        ProcessSnapshot {
            pid: 1,
            state: ProcessState::Frozen,
            registers: Some(registers(1)),
            memory_ranges: vec![],
            open_files: vec![
                FileDescriptor { fd: 0, inode: 11 },
                FileDescriptor { fd: 1, inode: 12 }
            ],
            children: vec![20, 30],
        }
    );
    assert_eq!(captured[1].pid, 20);
    assert_eq!(captured[2].pid, 30);
    assert_eq!(captured[2].children, vec![31]);
    assert!(captured.iter().all(|snapshot| snapshot.state == ProcessState::Frozen));
    assert_eq!(manager.capture_processes(&QuantumKernel::new()), Ok(vec![]));
}

#[test]
fn memory_path_names_the_process() {
    let manager = SnapshotManager::new("snapshots");
    assert_eq!(manager.memory_path(0), "/proc/0/mem");
    assert_eq!(manager.memory_path(4242), "/proc/4242/mem");
    assert_eq!(manager.memory_path(u32::MAX), "/proc/4294967295/mem");
}

#[test]
fn memory_ranges_are_not_captured() {
    let manager = SnapshotManager::new("snapshots");
    assert_eq!(manager.capture_memory_ranges("/proc/1/mem"), Ok(vec![]));
    assert_eq!(manager.capture_memory_ranges(""), Ok(vec![]));
}

#[test]
fn layouts_are_captured_in_order() {
    let manager = SnapshotManager::new("snapshots");
    assert_eq!(
        manager.capture_memory_layouts(&kernel()),
        Ok(vec![
            MemoryLayoutSnapshot { layout: layout(1) },
            MemoryLayoutSnapshot { layout: layout(20) }
        ])
    );
}

#[test]
fn snapshot_is_named_after_its_time() {
    let manager = SnapshotManager::new("snapshots");
    let taken = manager.take_snapshot(&kernel(), 0x17_abcd_ef01_2345_6789).unwrap();
    assert_eq!(taken.snapshot_id, "snapshot_17abcdef0123456789");
    assert_eq!(taken.timestamp, 0xabcd_ef01_2345_6789);
    assert_eq!(taken.checksum, "");
    assert_eq!(taken.processes, manager.capture_processes(&kernel()).unwrap());
    assert_eq!(taken.memory_layouts, manager.capture_memory_layouts(&kernel()).unwrap());
    assert_eq!(taken.syscall_state, kernel().syscall_state);
    assert_eq!(taken.crypto_state, kernel().crypto_state);
    assert_eq!(manager.take_snapshot(&kernel(), 0).unwrap().snapshot_id, "snapshot_0");
    assert_eq!(manager.take_snapshot(&kernel(), 255).unwrap().snapshot_id, "snapshot_ff");
    assert_eq!(
        manager.take_snapshot(&kernel(), u128::MAX).unwrap().snapshot_id,
        "snapshot_ffffffffffffffffffffffffffffffff"
    );
}

#[test]
fn checksum_is_the_hex_digest() {
    let manager = SnapshotManager::new("snapshots");
    assert_eq!(
        manager.calculate_checksum(b"abc"),
        "ba7816bf8f01cfea414140de5dae2223b00361a396177a9cb410ff61f20015ad"
    );
    assert_eq!(
        manager.calculate_checksum(b""),
        "e3b0c44298fc1c149afbf4c8996fb92427ae41e4649b934ca495991b7852b855"
    );
}

#[test]
fn sealed_snapshot_restores_the_kernel() {
    let manager = SnapshotManager::new("snapshots");
    let bytes = b"serialised snapshot".to_vec();
    let taken = manager.take_snapshot(&kernel(), 1234).unwrap();
    let sealed = manager.seal_snapshot(taken.clone(), &bytes);
    assert_eq!(sealed.checksum, manager.calculate_checksum(&bytes));
    assert_eq!(sealed.snapshot_id, taken.snapshot_id);
    assert_eq!(sealed.processes, taken.processes);
    assert_eq!(manager.restore_snapshot(&sealed, &bytes), Ok(kernel()));
}

#[test]
fn wrong_checksum_is_refused() {
    let manager = SnapshotManager::new("snapshots");
    let taken = manager.take_snapshot(&kernel(), 1234).unwrap();
    assert_eq!(manager.restore_snapshot(&taken, b"bytes"), Err(SnapshotError::ChecksumMismatch));
    let sealed = manager.seal_snapshot(taken, b"bytes");
    assert_eq!(manager.restore_snapshot(&sealed, b"other"), Err(SnapshotError::ChecksumMismatch));
    let mut upper = sealed.clone();
    upper.checksum = upper.checksum.to_uppercase();
    assert_eq!(manager.restore_snapshot(&upper, b"bytes"), Err(SnapshotError::ChecksumMismatch));
    assert!(manager.restore_snapshot(&sealed, b"bytes").is_ok());
}

#[test]
fn snapshot_without_registers_is_refused() {
    let manager = SnapshotManager::new("snapshots");
    let mut taken = manager.take_snapshot(&kernel(), 1234).unwrap();
    taken.processes[2].registers = None;
    taken.processes[1].registers = None;
    let sealed = manager.seal_snapshot(taken, b"bytes");
    assert_eq!(
        manager.restore_snapshot(&sealed, b"bytes"),
        Err(SnapshotError::MissingRegisters { pid: 20 })
    );
    let mut wrong = sealed.clone();
    wrong.checksum = String::from("00");
    assert_eq!(manager.restore_snapshot(&wrong, b"bytes"), Err(SnapshotError::ChecksumMismatch));
}

#[test]
fn process_is_restored_from_its_snapshot() {
    let manager = SnapshotManager::new("snapshots");
    let mut kernel = QuantumKernel::new();
    let snapshot = ProcessSnapshot {
        pid: 5,
        state: ProcessState::Frozen,
        registers: Some(registers(5)),
        memory_ranges: vec![],
        open_files: vec![FileDescriptor { fd: 3, inode: 4 }],
        children: vec![6],
    };
    assert_eq!(manager.restore_process(&mut kernel, &snapshot), Ok(()));
    assert_eq!(
        kernel.processes,
        vec![(
            5,
            KernelProcess {
                children: vec![6],
                registers: registers(5),
                open_files: vec![FileDescriptor { fd: 3, inode: 4 }]
            }
        )]
    );
    let bare = ProcessSnapshot { registers: None, ..snapshot };
    assert_eq!(
        manager.restore_process(&mut kernel, &bare),
        Err(SnapshotError::MissingRegisters { pid: 5 })
    );
    assert_eq!(kernel.processes.len(), 1);
}

#[test]
fn kernel_state_is_put_back_piece_by_piece() {
    let mut restored = QuantumKernel::new();
    assert_eq!(restored.processes.len(), 0);
    restored.restore_memory_layout(&MemoryLayoutSnapshot { layout: layout(4) });
    restored.restore_memory_layout(&MemoryLayoutSnapshot { layout: layout(5) });
    restored.restore_syscall_state(&kernel().syscall_state());
    restored.restore_crypto_state(&kernel().crypto_state());
    assert_eq!(restored.memory_layouts, vec![layout(4), layout(5)]);
    assert_eq!(restored.syscall_state, kernel().syscall_state);
    assert_eq!(restored.crypto_state, kernel().crypto_state);
}

#[test]
fn oldest_snapshots_beyond_ten_are_stale() {
    let manager = SnapshotManager::new("snapshots");
    assert_eq!(manager.stale_snapshots(&[]), Vec::<usize>::new());
    assert_eq!(manager.stale_snapshots(&[5; 10]), Vec::<usize>::new());
    let modified = [50, 10, 60, 70, 80, 90, 100, 110, 5, 120, 130, 140, 150];
    assert_eq!(manager.stale_snapshots(&modified), vec![0, 1, 8]);
    let rising: Vec<u64> = (0..25).collect();
    assert_eq!(manager.stale_snapshots(&rising), (0..15).collect::<Vec<usize>>());
    let falling: Vec<u64> = (0..12).rev().collect();
    assert_eq!(manager.stale_snapshots(&falling), vec![10, 11]);
}

#[test]
fn equal_times_go_by_position() {
    let manager = SnapshotManager::new("snapshots");
    assert_eq!(manager.stale_snapshots(&[7; 13]), vec![0, 1, 2]);
    let modified = [9, 1, 9, 1, 9, 1, 9, 1, 9, 1, 9, 1];
    assert_eq!(manager.stale_snapshots(&modified), vec![1, 3]);
}

#[test]
fn stale_snapshots_number_the_excess() {
    let manager = SnapshotManager::new("snapshots");
    for length in 0..40usize {
        let modified: Vec<u64> = (0..length).map(|i| ((i * 7919 + 13) % 11) as u64).collect();
        let stale = manager.stale_snapshots(&modified);
        assert_eq!(stale.len(), length.saturating_sub(10));
        let newest_stale = stale.iter().map(|i| modified[*i]).max();
        for kept in (0..length).filter(|i| !stale.contains(i)) {
            assert!(newest_stale.map_or(true, |time| time <= modified[kept]));
        }
    }
}

#[test]
fn copy_holds_the_same_items() {
    assert_eq!(copy_of(&vec![3u8, 1, 2]), vec![3u8, 1, 2]);
    assert_eq!(copy_of(&Vec::<u64>::new()), Vec::<u64>::new());
}
