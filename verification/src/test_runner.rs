//! The in-kernel test runner: the schedule of a test run, and the exit codes
//! that tell QEMU how the run ended.

use vstd::prelude::*;

verus! {

/// I/O port of QEMU's `isa-debug-exit` device.
pub const QEMU_EXIT_PORT: u16 = 0xf4;

/// How a test run ended, as reported to QEMU.
#[derive(Debug, Clone, Copy, PartialEq, Eq, Structural)]
pub enum QemuExitCode {
    Success,
    Failed,
}

impl QemuExitCode {
    /// The value written to the exit device for this outcome.
    pub open spec fn value(self) -> u32 {
        match self {
            QemuExitCode::Success => 0x10,
            QemuExitCode::Failed => 0x11,
        }
    }

    pub fn code(self) -> (v: u32)
        ensures
            v == self.value(),
    {
        match self {
            QemuExitCode::Success => 0x10,
            QemuExitCode::Failed => 0x11,
        }
    }
}

/// A 32-bit write to an I/O port.
#[derive(Debug, Clone, Copy, PartialEq, Eq, Structural)]
pub struct PortWrite32 {
    pub port: u16,
    pub value: u32,
}

/// The port write that makes QEMU exit with the given outcome.
pub open spec fn exit_write(exit_code: QemuExitCode) -> PortWrite32 {
    PortWrite32 { port: QEMU_EXIT_PORT, value: exit_code.value() }
}

/// The port write that ends the run with `exit_code`.
pub fn exit_qemu(exit_code: QemuExitCode) -> (w: PortWrite32)
    ensures
        w == exit_write(exit_code),
{
    PortWrite32 { port: QEMU_EXIT_PORT, value: exit_code.code() }
}

/// One step of a test run.
#[derive(Debug, Clone, Copy, PartialEq, Eq, Structural)]
pub enum TestAction {
    /// Tell the text console that the kernel runs in test mode and that the
    /// results go to the serial port.
    ConsoleTestMode,
    /// Announce the run; `modules` is the number of test tables.
    Banner { modules: usize },
    /// Announce a test by its place: table, then position in the table.
    Start { module: usize, test: usize },
    /// Run that test.
    Run { module: usize, test: usize },
    /// The test just run returned: report it passed.
    Passed,
    /// Every test returned: tell the text console that the run passed.
    ConsoleAllPassed,
    /// Every test returned: report the run passed.
    AllPassed,
    /// Make the port write that ends the run.
    Exit(PortWrite32),
}

/// The steps for the first `n` tests of table `module`.
pub open spec fn module_plan(module: usize, n: nat) -> Seq<TestAction>
    decreases n,
{
    if n == 0 {
        Seq::empty()
    } else {
        let t = (n - 1) as usize;
        module_plan(module, (n - 1) as nat) + seq![
            TestAction::Start { module, test: t },
            TestAction::Run { module, test: t },
            TestAction::Passed,
        ]
    }
}

/// The steps for every test of every table, table by table.
pub open spec fn modules_plan(counts: Seq<usize>) -> Seq<TestAction>
    decreases counts.len(),
{
    if counts.len() == 0 {
        Seq::empty()
    } else {
        modules_plan(counts.drop_last()) + module_plan((counts.len() - 1) as usize, counts.last() as nat)
    }
}

/// The first steps of a run: the console notice and the banner.
pub open spec fn plan_head(counts: Seq<usize>) -> Seq<TestAction> {
    seq![TestAction::ConsoleTestMode, TestAction::Banner { modules: counts.len() as usize }]
}

/// A whole run over tables holding `counts[i]` tests each: the console notice
/// and the banner, each test announced, run and reported in order, then
/// success on the console and the serial port, and the exit.
pub open spec fn test_plan(counts: Seq<usize>) -> Seq<TestAction> {
    plan_head(counts) + modules_plan(counts) + seq![
        TestAction::ConsoleAllPassed,
        TestAction::AllPassed,
        TestAction::Exit(exit_write(QemuExitCode::Success)),
    ]
}

/// The schedule of a run over test tables of the given sizes.
pub fn test_runner(tests: &Vec<usize>) -> (plan: Vec<TestAction>)
    ensures
        plan@ == test_plan(tests@),
{
    let mut plan: Vec<TestAction> = Vec::new();
    plan.push(TestAction::ConsoleTestMode);
    plan.push(TestAction::Banner { modules: tests.len() });
    let mut m: usize = 0;
    while m < tests.len()
        invariant
            m <= tests@.len(),
            plan@ == plan_head(tests@) + modules_plan(
                tests@.subrange(0, m as int),
            ),
        decreases tests@.len() - m,
    {
        let n = tests[m];
        let mut t: usize = 0;
        while t < n
            invariant
                m < tests@.len(),
                n == tests@[m as int],
                t <= n,
                plan@ == plan_head(tests@) + modules_plan(
                    tests@.subrange(0, m as int),
                ) + module_plan(m, t as nat),
            decreases n - t,
        {
            plan.push(TestAction::Start { module: m, test: t });
            plan.push(TestAction::Run { module: m, test: t });
            plan.push(TestAction::Passed);
            t = t + 1;
            assert(plan@ =~= plan_head(tests@)
                + modules_plan(tests@.subrange(0, m as int)) + module_plan(m, t as nat));
        }
        assert(tests@.subrange(0, m + 1).drop_last() =~= tests@.subrange(0, m as int));
        m = m + 1;
        assert(plan@ =~= plan_head(tests@) + modules_plan(
            tests@.subrange(0, m as int),
        ));
    }
    plan.push(TestAction::ConsoleAllPassed);
    plan.push(TestAction::AllPassed);
    plan.push(TestAction::Exit(exit_qemu(QemuExitCode::Success)));
    assert(tests@.subrange(0, tests@.len() as int) =~= tests@);
    plan
}

/// Number of tests in each table of the kernel's suite: the bootloader's,
/// the VGA text buffer's and the UART's.
pub open spec fn suite_layout() -> Seq<usize> {
    seq![3usize, 3usize, 2usize]
}

/// The schedule of a run over the kernel's whole suite.
pub fn test_main() -> (plan: Vec<TestAction>)
    ensures
        plan@ == test_plan(suite_layout()),
{
    let tests: Vec<usize> = vec![3, 3, 2];
    assert(tests@ =~= suite_layout());
    test_runner(&tests)
}

/// The steps of one table: three for each test.
proof fn lemma_module_plan_len(module: usize, n: nat)
    ensures
        module_plan(module, n).len() == 3 * n,
    decreases n,
{
    if n > 0 {
        lemma_module_plan_len(module, (n - 1) as nat);
    }
}

/// Number of tests over all the tables.
pub open spec fn total(counts: Seq<usize>) -> nat
    decreases counts.len(),
{
    if counts.len() == 0 {
        0
    } else {
        total(counts.drop_last()) + counts.last() as nat
    }
}

/// Step `j` (announce, run, report) of test `test` of table `module`.
pub open spec fn test_step(module: usize, test: usize, j: int) -> TestAction {
    if j == 0 {
        TestAction::Start { module, test }
    } else if j == 1 {
        TestAction::Run { module, test }
    } else {
        TestAction::Passed
    }
}

/// Where the steps of test `t` of table `m` begin in a whole run: after the
/// two opening steps and three steps for every earlier test.
pub open spec fn test_position(counts: Seq<usize>, m: int, t: int) -> int {
    2 + 3 * (total(counts.subrange(0, m)) + t)
}

/// Step `k` of the steps of one table.
proof fn lemma_module_plan_at(module: usize, n: nat, k: int)
    requires
        0 <= k < 3 * n,
        n <= usize::MAX + 1,
    ensures
        module_plan(module, n)[k] == test_step(module, (k / 3) as usize, k % 3),
    decreases n,
{
    lemma_module_plan_len(module, (n - 1) as nat);
    if k < 3 * (n - 1) {
        lemma_module_plan_at(module, (n - 1) as nat, k);
    } else {
        assert(k / 3 == n - 1);
        assert(k % 3 == k - 3 * (n - 1));
    }
}

/// The steps of all the tables: three for each test.
proof fn lemma_modules_plan_len(counts: Seq<usize>)
    ensures
        modules_plan(counts).len() == 3 * total(counts),
    decreases counts.len(),
{
    if counts.len() > 0 {
        lemma_modules_plan_len(counts.drop_last());
        lemma_module_plan_len((counts.len() - 1) as usize, counts.last() as nat);
    }
}

/// Test `t` of table `m` has its three steps where `test_position` says.
proof fn lemma_modules_plan_slot(counts: Seq<usize>, m: int, t: int, j: int)
    requires
        0 <= m < counts.len(),
        0 <= t < counts[m],
        0 <= j < 3,
    ensures
        3 * (total(counts.subrange(0, m)) + t) + j < modules_plan(counts).len(),
        modules_plan(counts)[3 * (total(counts.subrange(0, m)) + t) + j] == test_step(
            m as usize,
            t as usize,
            j,
        ),
    decreases counts.len(),
{
    let p = counts.drop_last();
    let last = (counts.len() - 1) as usize;
    lemma_modules_plan_len(p);
    lemma_module_plan_len(last, counts.last() as nat);
    if m == counts.len() - 1 {
        assert(counts.subrange(0, m) =~= p);
        lemma_module_plan_at(last, counts.last() as nat, 3 * t + j);
        assert((3 * t + j) / 3 == t);
        assert((3 * t + j) % 3 == j);
    } else {
        assert(p.subrange(0, m) =~= counts.subrange(0, m));
        assert(p[m] == counts[m]);
        lemma_modules_plan_slot(p, m, t, j);
    }
}

/// Step `k` of the tables' part of a run is one of the three steps of test `t`
/// of table `m`, at that test's place.
spec fn covers(counts: Seq<usize>, k: int, m: int, t: int) -> bool {
    &&& 0 <= m < counts.len()
    &&& 0 <= t < counts[m]
    &&& 3 * (total(counts.subrange(0, m)) + t) <= k < 3 * (total(counts.subrange(0, m)) + t) + 3
    &&& modules_plan(counts)[k] == test_step(
        m as usize,
        t as usize,
        k - 3 * (total(counts.subrange(0, m)) + t),
    )
}

/// Every step of the tables' part of a run is one of the three steps of some
/// listed test, at that test's place.
proof fn lemma_modules_plan_cover(counts: Seq<usize>, k: int)
    requires
        0 <= k < modules_plan(counts).len(),
        counts.len() <= usize::MAX,
    ensures
        exists|m: int, t: int| #[trigger] covers(counts, k, m, t),
    decreases counts.len(),
{
    let p = counts.drop_last();
    lemma_modules_plan_len(counts);
    lemma_modules_plan_len(p);
    let last = (counts.len() - 1) as usize;
    if k < 3 * total(p) {
        lemma_modules_plan_cover(p, k);
        let (m, t) = choose|m: int, t: int| #[trigger] covers(p, k, m, t);
        assert(p.subrange(0, m) =~= counts.subrange(0, m));
        assert(modules_plan(counts)[k] == modules_plan(p)[k]);
        assert(covers(counts, k, m, t));
    } else {
        let m = counts.len() - 1;
        let k1 = k - 3 * total(p);
        let t = k1 / 3;
        lemma_module_plan_len(last, counts.last() as nat);
        lemma_module_plan_at(last, counts.last() as nat, k1);
        assert(counts.subrange(0, m) =~= p);
        assert(modules_plan(counts)[k] == module_plan(last, counts.last() as nat)[k1]);
        assert(k1 % 3 == k - 3 * (total(counts.subrange(0, m)) + t));
        assert(covers(counts, k, m, t));
    }
}

/// A run has two opening steps (the console notice, then the banner with the
/// number of tables), three steps for each test, and three closing steps
/// (success on the console, success on the serial port, the exit that tells
/// QEMU the run succeeded).
pub proof fn lemma_test_plan_shape(counts: Seq<usize>)
    ensures
        ({
            let plan = test_plan(counts);
            &&& plan.len() == 5 + 3 * total(counts)
            &&& plan[0] == TestAction::ConsoleTestMode
            &&& plan[1] == (TestAction::Banner { modules: counts.len() as usize })
            &&& plan[plan.len() - 3] == TestAction::ConsoleAllPassed
            &&& plan[plan.len() - 2] == TestAction::AllPassed
            &&& plan[plan.len() - 1] == TestAction::Exit(
                PortWrite32 { port: QEMU_EXIT_PORT, value: 0x10 },
            )
        }),
{
    lemma_modules_plan_len(counts);
}

/// Every listed test, table by table, is announced, run and reported at its
/// place in the run, the report right after the run.
pub proof fn lemma_test_plan_runs_each_test(counts: Seq<usize>, m: int, t: int)
    requires
        0 <= m < counts.len(),
        0 <= t < counts[m],
    ensures
        ({
            let plan = test_plan(counts);
            let k = test_position(counts, m, t);
            &&& k + 2 < plan.len() - 3
            &&& plan[k] == (TestAction::Start { module: m as usize, test: t as usize })
            &&& plan[k + 1] == (TestAction::Run { module: m as usize, test: t as usize })
            &&& plan[k + 2] == TestAction::Passed
        }),
{
    lemma_modules_plan_len(counts);
    lemma_modules_plan_slot(counts, m, t, 0);
    lemma_modules_plan_slot(counts, m, t, 1);
    lemma_modules_plan_slot(counts, m, t, 2);
}

/// A run runs nothing but the listed tests, and each of them only at its own
/// place: together with `lemma_test_plan_runs_each_test`, every listed test
/// runs exactly once, in table order.
pub proof fn lemma_test_plan_runs_only_listed(counts: Seq<usize>, k: int, m: usize, t: usize)
    requires
        counts.len() <= usize::MAX,
        0 <= k < test_plan(counts).len(),
        test_plan(counts)[k] == (TestAction::Run { module: m, test: t }),
    ensures
        m < counts.len(),
        t < counts[m as int],
        k == test_position(counts, m as int, t as int) + 1,
{
    lemma_modules_plan_len(counts);
    let plan = test_plan(counts);
    let n = modules_plan(counts).len();
    if k < 2 {
        assert(plan[k] == plan_head(counts)[k]);
    } else if k >= 2 + n {
        assert(plan[k] == seq![
            TestAction::ConsoleAllPassed,
            TestAction::AllPassed,
            TestAction::Exit(exit_write(QemuExitCode::Success)),
        ][k - 2 - n]);
    } else {
        let k1 = k - 2;
        assert(plan[k] == modules_plan(counts)[k1]);
        lemma_modules_plan_cover(counts, k1);
        let (m1, t1) = choose|m1: int, t1: int| #[trigger] covers(counts, k1, m1, t1);
        assert(k1 - 3 * (total(counts.subrange(0, m1)) + t1) == 1);
        assert(m1 as usize == m);
        assert(t1 as usize == t);
    }
}

} // verus!
