use moturus_rt::backend::{align_up, backend_page_count, debug_alloc, exit_status, PAGE_4K};
use moturus_rt::backtrace::{backtrace_report, FrameWalk, WalkStep, BACKTRACE_DEPTH};
use moturus_rt::flag_sets::flags::Flags;
use moturus_rt::flag_sets::gapped_flags::Test;
use moturus_rt::flag_text::debug_string;
use moturus_rt::radix::{binary_string, digits_string, lower_hex_string, octal_string, upper_hex_string};

#[test]
fn align_up_rounds_to_the_next_multiple() {
    assert_eq!(align_up(0, 4096), 0);
    assert_eq!(align_up(1, 4096), 4096);
    assert_eq!(align_up(4095, 4096), 4096);
    assert_eq!(align_up(4096, 4096), 4096);
    assert_eq!(align_up(4097, 4096), 8192);
    assert_eq!(align_up(13, 1), 13);
    assert_eq!(align_up(13, 8), 16);
    assert_eq!(align_up(u64::MAX - 7, 8), u64::MAX - 7);
}

#[test]
fn page_count_covers_the_size() {
    assert_eq!(PAGE_4K, 4096);
    assert_eq!(backend_page_count(0), 0);
    assert_eq!(backend_page_count(1), 1);
    assert_eq!(backend_page_count(4096), 1);
    assert_eq!(backend_page_count(4097), 2);
    assert_eq!(backend_page_count(3 * 4096 + 17), 4);
}

#[test]
fn exit_status_keeps_the_bits_of_the_code() {
    assert_eq!(exit_status(0), 0);
    assert_eq!(exit_status(3), 3);
    assert_eq!(exit_status(-1), 0xffff_ffff);
    assert_eq!(exit_status(i32::MIN), 0x8000_0000);
    assert_eq!(exit_status(i32::MAX), 0x7fff_ffff);
}

#[test]
fn allocations_are_not_traced_by_default() {
    assert!(!debug_alloc());
}

/// Runs a walk over a simulated stack: `memory` maps an address to the
/// word stored there.
fn run_walk(start: u64, memory: &[(u64, u64)]) -> (Vec<u64>, usize) {
    let read = |addr: u64| -> u64 {
        memory.iter().find(|(a, _)| *a == addr).map(|(_, v)| *v).unwrap_or(0)
    };
    let mut walk = FrameWalk::start(start);
    let mut reads = 0;
    loop {
        match walk.next_step() {
            WalkStep::SkipFrame { frame } => {
                reads += 1;
                walk.skip_to(read(frame));
            }
            WalkStep::ReadFrame { frame } => {
                reads += 1;
                walk.record(read(frame + 8), read(frame));
            }
            WalkStep::Done => break,
        }
    }
    (walk.into_trace(), reads)
}

#[test]
fn walk_records_return_addresses_until_a_low_frame() {
    let memory = [
        (0x20000, 0x30000),
        (0x30000, 0x40000),
        (0x30008, 0x1111),
        (0x40000, 0x100),
        (0x40008, 0x2222),
    ];
    let (trace, reads) = run_walk(0x20000, &memory);
    assert_eq!(trace.len(), BACKTRACE_DEPTH);
    assert_eq!(trace[0], 0x1111);
    assert_eq!(trace[1], 0x2222);
    assert!(trace[2..].iter().all(|a| *a == 0));
    assert_eq!(reads, 3);
}

#[test]
fn walk_of_a_null_frame_reads_nothing() {
    let (trace, reads) = run_walk(0, &[]);
    assert_eq!(reads, 0);
    assert!(trace.iter().all(|a| *a == 0));
}

#[test]
fn walk_stops_at_a_repeated_frame() {
    let memory = [(0x20000, 0x30000), (0x30000, 0x30000), (0x30008, 0x77)];
    let (trace, reads) = run_walk(0x20000, &memory);
    assert_eq!(trace[0], 0x77);
    assert_eq!(trace[1], 0);
    assert_eq!(reads, 2);
}

#[test]
fn walk_stops_at_full_depth() {
    let mut memory = vec![(0x10000, 0x20000)];
    for i in 0..100u64 {
        let frame = 0x20000 + i * 0x100;
        memory.push((frame, frame + 0x100));
        memory.push((frame + 8, 0x1000 + i));
    }
    let (trace, reads) = run_walk(0x10000, &memory);
    assert_eq!(reads, 1 + BACKTRACE_DEPTH);
    assert_eq!(trace[0], 0x1000);
    assert_eq!(trace[63], 0x1000 + 63);
}

#[test]
fn report_lists_addresses_up_to_the_first_zero() {
    let trace = [0x1234, 0xabc, 0, 0x99];
    assert_eq!(
        backtrace_report("app", &trace),
        "backtrace: run \n\naddr2line -e app \\\n  0x1234 \\\n  0xabc\n\n"
    );
}

#[test]
fn report_stops_at_an_address_out_of_range() {
    let trace = [0x10, (1u64 << 40) + 1, 0x20];
    assert_eq!(
        backtrace_report("bin", &trace),
        "backtrace: run \n\naddr2line -e bin \\\n  0x10\n\n"
    );
    let trace = [1u64 << 40];
    assert_eq!(
        backtrace_report("bin", &trace),
        "backtrace: run \n\naddr2line -e bin \\\n  0x10000000000\n\n"
    );
    assert_eq!(backtrace_report("x", &[]), "backtrace: run \n\naddr2line -e x\n\n");
}

#[test]
fn radix_strings_match_std_formatting() {
    for n in [0u128, 1, 7, 8, 15, 16, 255, 4096, 0xdead_beef, u128::MAX] {
        assert_eq!(binary_string(n, false), format!("{:b}", n));
        assert_eq!(binary_string(n, true), format!("{:#b}", n));
        assert_eq!(octal_string(n, false), format!("{:o}", n));
        assert_eq!(octal_string(n, true), format!("{:#o}", n));
        assert_eq!(lower_hex_string(n, false), format!("{:x}", n));
        assert_eq!(lower_hex_string(n, true), format!("{:#x}", n));
        assert_eq!(upper_hex_string(n, false), format!("{:X}", n));
        assert_eq!(upper_hex_string(n, true), format!("{:#X}", n));
    }
    assert_eq!(digits_string(10, 10, false), "10");
    assert_eq!(digits_string(0, 2, false), "0");
}

#[test]
fn debug_text_of_a_table() {
    let names = [("ZERO", 0u128), ("ONE", 1), ("TWO", 2)];
    assert_eq!(debug_string(0, 3, &names), "ZERO");
    assert_eq!(debug_string(3, 3, &names), "ONE | TWO");
    assert_eq!(debug_string(0x14, 3, &names), "0x14");
    assert_eq!(debug_string(0x16, 3, &names), "TWO | 0x14");
    assert_eq!(debug_string(0, 0, &[]), "(empty)");
}

#[test]
fn debug_text_names_gapped_flags_and_unknown_bits() {
    let t = Test::from_bits_unchecked(0b1_0000_1011);
    assert_eq!(t.to_debug_string(), "B | D | I | 0x1");
    assert_eq!(Test::all().to_debug_string(), "B | D | E | F | G | I");
}

#[test]
fn laws_hold_on_examples() {
    let a = Flags::A() | Flags::from_bits_unchecked(0b1000);
    let b = Flags::B() | Flags::C();
    // union and intersection commute
    assert_eq!(a | b, b | a);
    assert_eq!(a & b, b & a);
    // complement is the difference from all
    assert_eq!(a.complement(), Flags::all() - a);
    // complement twice gives the declared part
    assert_eq!(a.complement().complement(), Flags::from_bits_truncate(a.bits()));
    // De Morgan
    assert_eq!(!(a | b), !a & !b);
    // toggling twice is the identity
    let mut t = a;
    t.toggle(b);
    t.toggle(b);
    assert_eq!(t, a);
    // insert then contains; remove then no longer intersects
    let mut i = a;
    i.insert(b);
    assert!(i.contains(b) && i.contains(a));
    i.remove(b);
    assert!(!i.intersects(b));
    // set decides between insert and remove
    let mut s1 = a;
    s1.set(b, true);
    assert_eq!(s1, a | b);
    s1.set(b, false);
    assert_eq!(s1, a - b);
    // is_all is containing all
    assert_eq!((a | b).is_all(), (a | b).contains(Flags::all()));
    // from_bits of a declared pattern succeeds, of an unknown bit fails
    assert_eq!(Flags::from_bits(Flags::ABC().bits()), Some(Flags::ABC()));
    assert_eq!(Flags::from_bits(a.bits()), None);
    // union_of folds union
    assert_eq!(Flags::union_of(&[Flags::A(), Flags::C()]), Flags::A() | Flags::C());
    let mut e = Flags::B();
    e.insert_all(&[Flags::A(), Flags::A()]);
    assert_eq!(e, Flags::A() | Flags::B());
}

#[test]
fn iterator_insertion_is_the_union_of_the_items() {
    let mut f = Flags::C();
    f.insert_iter(vec![Flags::A(), Flags::from_bits_unchecked(0b1000)].into_iter());
    assert_eq!(f.bits(), 0b1101);
    assert_eq!(Flags::union_iter(vec![Flags::B(), Flags::A()].into_iter()), Flags::A() | Flags::B());
    assert_eq!(Flags::union_iter(Vec::new().into_iter()), Flags::empty());
    let mut g = Test::empty();
    g.insert_iter([Test::B(), Test::I()].into_iter());
    assert_eq!(g, Test::B() | Test::I());
}
