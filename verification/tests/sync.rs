use boringos::sync::preemptable_mutex::PreemptableMutex;
use boringos::sync::time::{Time, Timestamp};
use boringos::sync::{Cpu, PreemptionState};

#[test]
fn cpu_starts_with_preemption_disabled() {
    let mut cpu = Cpu::new(3);
    assert_eq!(cpu.id(), 3);
    assert!(!cpu.preemptable());
    let state = cpu.disable_preemption();
    assert!(!state.enabled());
    cpu.enable_preemption();
    let state = cpu.disable_preemption();
    assert!(state.enabled());
    assert!(!cpu.preemptable());
    cpu.restore_preemption_state(&state);
    assert!(cpu.preemptable());
    cpu.restore_preemption_state(&PreemptionState::disabled());
    assert!(!cpu.preemptable());
    assert!(!PreemptionState::default().enabled());
}

#[test]
fn lock_disables_preemption_and_release_restores_it() {
    let mut cpu = Cpu::new(0);
    cpu.enable_preemption();
    let mut mutex = PreemptableMutex::new(41u64);
    assert!(!mutex.locked());
    let guard = mutex.lock(&mut cpu);
    assert!(mutex.locked());
    assert!(!cpu.preemptable());
    *mutex.get_mut(&guard) += 1;
    assert_eq!(*mutex.get(&guard), 42);
    mutex.unlock(guard, &mut cpu);
    assert!(!mutex.locked());
    assert!(cpu.preemptable());
    assert_eq!(mutex.into_inner(), 42);
}

#[test]
fn lock_taken_with_preemption_disabled_leaves_it_disabled() {
    let mut cpu = Cpu::new(0);
    let mut mutex = PreemptableMutex::new(());
    let guard = mutex.try_lock(&mut cpu).unwrap();
    assert!(!cpu.preemptable());
    mutex.unlock(guard, &mut cpu);
    assert!(!cpu.preemptable());
}

#[test]
fn nested_locks_restore_preemption_step_by_step() {
    let mut cpu = Cpu::new(0);
    cpu.enable_preemption();
    let mut outer = PreemptableMutex::new(1u8);
    let mut inner = PreemptableMutex::new(2u8);
    let outer_guard = outer.lock(&mut cpu);
    let inner_guard = inner.lock(&mut cpu);
    assert!(!cpu.preemptable());
    inner.unlock(inner_guard, &mut cpu);
    // The outer lock is still held.
    assert!(!cpu.preemptable());
    outer.unlock(outer_guard, &mut cpu);
    assert!(cpu.preemptable());
}

#[test]
fn try_lock_on_a_held_lock_obtains_nothing_and_changes_nothing() {
    let mut cpu = Cpu::new(0);
    cpu.enable_preemption();
    let mut mutex = PreemptableMutex::new(7u32);
    let guard = mutex.try_lock(&mut cpu).unwrap();
    // An interrupt handler on another CPU, where preemption is enabled, tries as well.
    let mut other = Cpu::new(1);
    other.enable_preemption();
    assert!(mutex.try_lock(&mut other).is_none());
    assert!(other.preemptable());
    assert!(mutex.locked());
    assert_eq!(*mutex.get(&guard), 7);
    let mut quiet = Cpu::new(2);
    assert!(mutex.try_lock(&mut quiet).is_none());
    assert!(!quiet.preemptable());
    // The holder releases, and its own preemption state comes back.
    mutex.set(&guard, 8);
    mutex.unlock(guard, &mut cpu);
    assert!(cpu.preemptable());
    let guard = mutex.try_lock(&mut other).unwrap();
    assert!(!other.preemptable());
    assert_eq!(*mutex.get(&guard), 8);
}

#[test]
fn locked_increments_add_up() {
    let mut mutex = PreemptableMutex::new(0u64);
    let mut cpus: Vec<Cpu> = (0..4).map(Cpu::new).collect();
    for round in 0..1000 {
        let cpu = &mut cpus[round % 4];
        let guard = mutex.lock(cpu);
        *mutex.get_mut(&guard) += 1;
        mutex.unlock(guard, cpu);
    }
    assert_eq!(mutex.into_inner(), 1000);
}

#[test]
fn timestamp_offset_adds_the_span() {
    let mut at = Timestamp::from_microseconds(1_000);
    at.offset(Time::Microseconds(5));
    assert_eq!(at.microseconds, 1_005);
    at.offset(Time::Milliseconds(10));
    assert_eq!(at.microseconds, 11_005);
    at.offset(Time::Seconds(2));
    assert_eq!(at.microseconds, 2_011_005);
    at.offset(Time::Milliseconds(-11));
    assert_eq!(at.microseconds, 2_000_005);
    assert_eq!(Timestamp::from_milliseconds(3), Timestamp::from_microseconds(3_000));
    assert!(Timestamp::from_milliseconds(3).is_at_or_before(&Timestamp::from_milliseconds(3)));
    assert!(!Timestamp::from_milliseconds(4).is_at_or_before(&Timestamp::from_milliseconds(3)));
}

#[test]
fn timestamp_offset_stays_within_bounds() {
    let mut at = Timestamp::from_microseconds(10);
    at.offset(Time::Microseconds(-11));
    assert_eq!(at.microseconds, 0);
    at.offset(Time::Seconds(i64::MIN));
    assert_eq!(at.microseconds, 0);
    let mut at = Timestamp::from_microseconds(u64::MAX - 5);
    at.offset(Time::Microseconds(5));
    assert_eq!(at.microseconds, u64::MAX);
    at.offset(Time::Microseconds(1));
    assert_eq!(at.microseconds, u64::MAX);
    let mut at = Timestamp::from_microseconds(1);
    at.offset(Time::Seconds(i64::MAX));
    assert_eq!(at.microseconds, u64::MAX);
    let mut at = Timestamp::from_microseconds(0);
    at.offset(Time::Milliseconds(i64::MAX));
    assert_eq!(at.microseconds, u64::MAX);
    assert_eq!(Timestamp::from_milliseconds(u64::MAX).microseconds, u64::MAX);
    assert_eq!(Timestamp::from_milliseconds(u64::MAX / 1000).microseconds, u64::MAX / 1000 * 1000);
}
