use unibar::{button_text_name, Cpu, CpuDelta, Date, Segment};

#[test]
fn first_reading_is_measured_from_zero() {
    let mut cpu = Cpu::new();
    let stat = b"cpu  100 0 50 800 10 0 5 0 0 0\ncpu0 50 0 25 400 5 0 2 0 0 0\nintr 123 4 5\n";
    assert_eq!(cpu.load(stat), Some(CpuDelta { total: 965, idle: 810 }));
}

#[test]
fn later_readings_give_the_change() {
    let mut cpu = Cpu::new();
    cpu.load(b"cpu  100 0 50 800 10 0 5 0 0 0\n");
    let next = b"cpu  200 0 100 900 20 0 10 0 0 0\n";
    assert_eq!(cpu.load(next), Some(CpuDelta { total: 265, idle: 110 }));
    // Counters that did not advance give the neutral change.
    assert_eq!(cpu.load(next), Some(CpuDelta { total: 1, idle: 1 }));
}

#[test]
fn counters_going_back_give_the_neutral_change() {
    let mut cpu = Cpu::new();
    cpu.load(b"cpu  100 0 50 800 10 0 5 0 0 0\n");
    assert_eq!(cpu.load(b"cpu  500 0 50 700 10 0 5 0 0 0\n"), Some(CpuDelta { total: 1, idle: 1 }));
}

#[test]
fn statistics_without_a_total_line_give_nothing() {
    let mut cpu = Cpu::new();
    assert_eq!(cpu.load(b""), None);
    assert_eq!(cpu.load(b"cpu0 50 0 25 400 5 0 2 0 0 0\nintr 1 2\n"), None);
    assert_eq!(cpu.load(b"cpu  1 2 3 4 5 6 7\n"), None);
}

#[test]
fn words_that_are_no_numbers_are_skipped() {
    let mut cpu = Cpu::new();
    let stat = b"cpu  +1 x 2 3 4 5 6 7 8";
    assert_eq!(cpu.load(stat), Some(CpuDelta { total: 36, idle: 9 }));
}

#[test]
fn number_too_large_is_skipped() {
    let mut cpu = Cpu::new();
    let stat = b"cpu  18446744073709551616 1 2 3 4 5 6 7 8\n";
    // The first word overflows and is left out; the rest are the counters.
    assert_eq!(cpu.load(stat), Some(CpuDelta { total: 36, idle: 9 }));
    let mut cpu = Cpu::new();
    let stat = b"cpu  18446744073709551615 0 0 0 0 0 0 0\n";
    assert_eq!(cpu.load(stat), Some(CpuDelta { total: 18446744073709551615, idle: 0 }));
}

#[test]
fn segment_ids_are_fresh_uuids() {
    let a = Date::new();
    let b = Date::new();
    let c = Cpu::new();
    assert_eq!(a.id().chars().count(), 36);
    assert_eq!(c.id().chars().count(), 36);
    assert_ne!(a.id(), b.id());
    assert_ne!(a.id(), c.id());
    assert_eq!(a.id().chars().filter(|c| *c == '-').count(), 4);
}

#[test]
fn text_entity_name_of_a_segment() {
    assert_eq!(button_text_name("abc"), "abc_btn_txt");
    let d = Date::new();
    assert_eq!(button_text_name(d.id()), format!("{}_btn_txt", d.id()));
}
