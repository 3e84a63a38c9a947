use khviz::eel::eval::{
    buffer_slot, builtin_of, loop_count, rand_below, reg_index, Builtin, LOOP_LIMIT, MEGABUF_SIZE, NUM_REGS,
};

#[test]
fn register_names_resolve() {
    assert_eq!(reg_index("reg00"), Some(0));
    assert_eq!(reg_index("reg07"), Some(7));
    assert_eq!(reg_index("reg42"), Some(42));
    assert_eq!(reg_index("reg99"), Some(99));
    for i in 0..NUM_REGS {
        assert_eq!(reg_index(&format!("reg{:02}", i)), Some(i));
    }
}

#[test]
fn signed_register_names_are_refused() {
    assert_eq!(reg_index("reg+5"), None);
    assert_eq!(reg_index("reg-5"), None);
    assert_eq!(reg_index("reg++"), None);
}

#[test]
fn other_names_are_not_registers() {
    assert_eq!(reg_index("reg5"), None);
    assert_eq!(reg_index("reg100"), None);
    assert_eq!(reg_index("Reg01"), None);
    assert_eq!(reg_index("regab"), None);
    assert_eq!(reg_index("regé"), None);
    assert_eq!(reg_index("reg٣٣"), None);
    assert_eq!(reg_index(""), None);
    assert_eq!(reg_index("q1"), None);
}

#[test]
fn builtin_names_resolve() {
    assert_eq!(builtin_of("sin"), Builtin::Sin);
    assert_eq!(builtin_of("atan2"), Builtin::Atan2);
    assert_eq!(builtin_of("log10"), Builtin::Log10);
    assert_eq!(builtin_of("loop"), Builtin::Loop);
    assert_eq!(builtin_of("if"), Builtin::If);
    assert_eq!(builtin_of("exec3"), Builtin::Exec3);
    assert_eq!(builtin_of("megabuf"), Builtin::Megabuf);
    assert_eq!(builtin_of("gmegabuf"), Builtin::Gmegabuf);
    assert_eq!(builtin_of("invsqrt"), Builtin::Invsqrt);
    assert_eq!(builtin_of("bnot"), Builtin::Bnot);
    assert_eq!(builtin_of("Sin"), Builtin::Unknown);
    assert_eq!(builtin_of("sine"), Builtin::Unknown);
    assert_eq!(builtin_of(""), Builtin::Unknown);
}

#[test]
fn lazy_builtins_need_their_arguments() {
    assert_eq!(Builtin::Loop.min_args(), 2);
    assert_eq!(Builtin::If.min_args(), 3);
    assert_eq!(Builtin::Exec2.min_args(), 2);
    assert_eq!(Builtin::Exec3.min_args(), 3);
    assert_eq!(Builtin::Assign.min_args(), 2);
    assert_eq!(Builtin::Megabuf.min_args(), 1);
    assert_eq!(Builtin::Sin.min_args(), 0);
    assert!(Builtin::If.is_lazy());
    assert!(!Builtin::Clamp.is_lazy());
    assert!(!Builtin::Unknown.is_lazy());
}

#[test]
fn rand_stays_below_its_bound() {
    assert_eq!(rand_below(0), 0);
    assert_eq!(rand_below(1), 0);
    for _ in 0..200 {
        assert!(rand_below(7) < 7);
    }
    let mut seen = [false; 4];
    for _ in 0..2000 {
        seen[rand_below(4) as usize] = true;
    }
    assert!(seen.iter().all(|&b| b));
}

#[test]
fn shared_buffer_has_its_own_builtin() {
    assert_eq!(builtin_of("gmegabuf"), Builtin::Gmegabuf);
    assert_ne!(builtin_of("gmegabuf"), builtin_of("megabuf"));
    assert_eq!(Builtin::Gmegabuf.min_args(), 1);
    assert!(Builtin::Gmegabuf.is_lazy());
}

#[test]
fn loop_counts_are_capped() {
    assert_eq!(loop_count(0), 0);
    assert_eq!(loop_count(7), 7);
    assert_eq!(loop_count(LOOP_LIMIT), 1024);
    assert_eq!(loop_count(1_000_000), 1024);
}

#[test]
fn buffer_reads_stay_in_range() {
    assert_eq!(buffer_slot(0, MEGABUF_SIZE), Some(0));
    assert_eq!(buffer_slot(999_999, MEGABUF_SIZE), Some(999_999));
    assert_eq!(buffer_slot(1_000_000, MEGABUF_SIZE), None);
    assert_eq!(buffer_slot(3, 0), None);
}
