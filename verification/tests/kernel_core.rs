use tiramisu::entry::{hello_address, hello_colored, HELLO_COLOR};
use tiramisu::interrupts::{InterruptIndex, PIC_1_OFFSET, PIC_2_OFFSET};
use tiramisu::logging::LogLevel;
use tiramisu::slab_alloc::{SlabAlloc, SLAB_COUNT};
use tiramisu::test_runner::{
    exit_qemu, test_main, test_runner, PortWrite32, QemuExitCode, TestAction, QEMU_EXIT_PORT,
};

#[test]
fn pic_offsets() {
    assert_eq!(PIC_1_OFFSET, 32);
    assert_eq!(PIC_2_OFFSET, 40);
}

#[test]
fn timer_vector() {
    assert_eq!(InterruptIndex::Timer.as_u8(), 32);
    assert_eq!(InterruptIndex::Timer.as_usize(), 32);
}

#[test]
fn fresh_slab_table_hands_out_slab_zero() {
    let slabs = SlabAlloc::new();
    assert_eq!(SLAB_COUNT, 1024);
    assert_eq!(slabs.find_free_slab(), Some(0));
    assert_eq!(slabs.find_free_slab(), Some(0));
}

#[test]
fn qemu_exit_codes() {
    assert_eq!(QemuExitCode::Success.code(), 0x10);
    assert_eq!(QemuExitCode::Failed.code(), 0x11);
    assert_eq!(exit_qemu(QemuExitCode::Success), PortWrite32 { port: 0xf4, value: 0x10 });
    assert_eq!(exit_qemu(QemuExitCode::Failed), PortWrite32 { port: QEMU_EXIT_PORT, value: 0x11 });
}

#[test]
fn empty_run_only_banners_and_exits() {
    let plan = test_runner(&vec![]);
    assert_eq!(
        plan,
        vec![
            TestAction::ConsoleTestMode,
            TestAction::Banner { modules: 0 },
            TestAction::ConsoleAllPassed,
            TestAction::AllPassed,
            TestAction::Exit(PortWrite32 { port: 0xf4, value: 0x10 }),
        ]
    );
}

#[test]
fn run_visits_tests_table_by_table() {
    let plan = test_runner(&vec![2, 0, 1]);
    assert_eq!(
        plan,
        vec![
            TestAction::ConsoleTestMode,
            TestAction::Banner { modules: 3 },
            TestAction::Start { module: 0, test: 0 },
            TestAction::Run { module: 0, test: 0 },
            TestAction::Passed,
            TestAction::Start { module: 0, test: 1 },
            TestAction::Run { module: 0, test: 1 },
            TestAction::Passed,
            TestAction::Start { module: 2, test: 0 },
            TestAction::Run { module: 2, test: 0 },
            TestAction::Passed,
            TestAction::ConsoleAllPassed,
            TestAction::AllPassed,
            TestAction::Exit(PortWrite32 { port: 0xf4, value: 0x10 }),
        ]
    );
}

#[test]
fn two_empty_tables_run_nothing() {
    let plan = test_runner(&vec![0, 0]);
    assert_eq!(
        plan,
        vec![
            TestAction::ConsoleTestMode,
            TestAction::Banner { modules: 2 },
            TestAction::ConsoleAllPassed,
            TestAction::AllPassed,
            TestAction::Exit(PortWrite32 { port: 0xf4, value: 0x10 }),
        ]
    );
}

#[test]
fn kernel_suite_schedule() {
    let plan = test_main();
    assert_eq!(plan.len(), 29);
    assert_eq!(plan[0], TestAction::ConsoleTestMode);
    assert_eq!(plan[1], TestAction::Banner { modules: 3 });
    // test 1 of table 1 starts after the two opening steps and four earlier tests
    assert_eq!(plan[2 + 3 * 4], TestAction::Start { module: 1, test: 1 });
    assert_eq!(plan[2 + 3 * 4 + 1], TestAction::Run { module: 1, test: 1 });
    assert_eq!(plan[2 + 3 * 4 + 2], TestAction::Passed);
    let runs: Vec<(usize, usize)> = plan
        .iter()
        .filter_map(|a| match a {
            TestAction::Run { module, test } => Some((*module, *test)),
            _ => None,
        })
        .collect();
    assert_eq!(runs, vec![(0, 0), (0, 1), (0, 2), (1, 0), (1, 1), (1, 2), (2, 0), (2, 1)]);
    assert_eq!(plan[26], TestAction::ConsoleAllPassed);
    assert_eq!(plan[27], TestAction::AllPassed);
    assert_eq!(plan[28], TestAction::Exit(exit_qemu(QemuExitCode::Success)));
}

#[test]
fn hello_banner_cells() {
    let cells = hello_colored();
    let text = b"Hello World!";
    for (i, c) in text.iter().enumerate() {
        assert_eq!(cells[2 * i], *c);
        assert_eq!(cells[2 * i + 1], HELLO_COLOR);
    }
    assert_eq!(HELLO_COLOR, 0x1f);
    assert_eq!(hello_address(), 0xb8000 + 1988);
}

#[test]
fn log_tags() {
    assert_eq!(LogLevel::Trace.tag(), "[TRACE] ");
    assert_eq!(LogLevel::Debug.tag(), "[DEBUG] ");
    assert_eq!(LogLevel::Info.tag(), "[INFO ] ");
    assert_eq!(LogLevel::Warn.tag(), "[WARN ] ");
    assert_eq!(LogLevel::Error.tag(), "[ERROR] ");
    assert_eq!(LogLevel::Fatal.tag(), "[FATAL] ");
}
