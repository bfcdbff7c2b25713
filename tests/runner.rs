use new_grader::runner::{
    add_extension, classify, decode_signal, next_step, process_result, read_return_value,
    ExitReport, FinalScore, MalformedOutput, NextStep, ProcessResult, SignalNumbers, StageEvent,
    TestOutcome,
};
use new_grader::test_parser::TestResult;

const LINUX: SignalNumbers = SignalNumbers { abort: 6, fpe: 8, usr2: 12 };

fn all_directives() -> Vec<TestResult> {
    vec![
        TestResult::Ret(0),
        TestResult::Ret(-3),
        TestResult::DivByZero,
        TestResult::Abort,
        TestResult::MemError,
        TestResult::SourceError,
        TestResult::TypeCheck,
        TestResult::Compile,
    ]
}

#[test]
fn return_value_decides_verdict() {
    for r in [0, -1, 52, i32::MIN, i32::MAX - 1] {
        let d = TestResult::Ret(r);
        assert_eq!(classify(&d, &ProcessResult::Success(r)), TestOutcome::Passed);
        assert_eq!(classify(&d, &ProcessResult::Success(r + 1)), TestOutcome::Failed);
    }
}

#[test]
fn timeout_whatever_expected() {
    for d in all_directives() {
        assert_eq!(classify(&d, &ProcessResult::Timeout), TestOutcome::TimedOut);
    }
}

#[test]
fn classification_is_repeatable() {
    let d = TestResult::Abort;
    let o = ProcessResult::SignalAbort;
    assert_eq!(classify(&d, &o), classify(&d, &o));
}

#[test]
fn signals_match_their_directives() {
    assert_eq!(classify(&TestResult::Abort, &ProcessResult::SignalAbort), TestOutcome::Passed);
    assert_eq!(classify(&TestResult::MemError, &ProcessResult::SignalUsr2), TestOutcome::Passed);
    assert_eq!(classify(&TestResult::DivByZero, &ProcessResult::SigFpe), TestOutcome::Passed);
    assert_eq!(classify(&TestResult::Abort, &ProcessResult::SigFpe), TestOutcome::Failed);
    assert_eq!(classify(&TestResult::Ret(0), &ProcessResult::SignalAbort), TestOutcome::Failed);
    assert_eq!(classify(&TestResult::Ret(1), &ProcessResult::Failure(1)), TestOutcome::Failed);
    assert_eq!(
        classify(&TestResult::MemError, &ProcessResult::OtherSignal(11)),
        TestOutcome::Failed
    );
}

#[test]
fn host_signal_numbers_are_distinct() {
    let h = SignalNumbers::host();
    assert_ne!(h.abort, h.fpe);
    assert_ne!(h.abort, h.usr2);
    assert_ne!(h.fpe, h.usr2);
    assert_eq!(decode_signal(h.abort, &h), ProcessResult::SignalAbort);
}

#[test]
fn signals_decode_by_number() {
    assert_eq!(decode_signal(6, &LINUX), ProcessResult::SignalAbort);
    assert_eq!(decode_signal(8, &LINUX), ProcessResult::SigFpe);
    assert_eq!(decode_signal(12, &LINUX), ProcessResult::SignalUsr2);
    assert_eq!(decode_signal(9, &LINUX), ProcessResult::OtherSignal(9));
}

#[test]
fn last_output_line_is_the_return_value() {
    assert_eq!(read_return_value("1\n2\n"), Some(2));
    assert_eq!(read_return_value("hello\n-5"), Some(-5));
    assert_eq!(read_return_value("5\r\n"), Some(5));
    assert_eq!(read_return_value(""), None);
    assert_eq!(read_return_value("\n"), None);
    assert_eq!(read_return_value("4\n\n"), None);
    assert_eq!(read_return_value("4x\n"), None);
}

#[test]
fn reports_become_endings() {
    assert_eq!(process_result(ExitReport::Exited(0), "0\n", &LINUX), Ok(ProcessResult::Success(0)));
    assert_eq!(
        process_result(ExitReport::Exited(0), "", &LINUX),
        Err(MalformedOutput::NoReturnValue)
    );
    assert_eq!(process_result(ExitReport::Exited(3), "", &LINUX), Ok(ProcessResult::Failure(3)));
    assert_eq!(process_result(ExitReport::Signaled(8), "1\n", &LINUX), Ok(ProcessResult::SigFpe));
    assert_eq!(process_result(ExitReport::Expired, "1\n", &LINUX), Ok(ProcessResult::Timeout));
}

#[test]
fn steps_after_compiling() {
    let fin = |o| NextStep::Finish(o);
    assert_eq!(next_step(&TestResult::SourceError, &StageEvent::Compiled(false)), fin(TestOutcome::Passed));
    assert_eq!(next_step(&TestResult::SourceError, &StageEvent::Compiled(true)), fin(TestOutcome::Failed));
    assert_eq!(next_step(&TestResult::TypeCheck, &StageEvent::Compiled(true)), fin(TestOutcome::Passed));
    assert_eq!(next_step(&TestResult::Compile, &StageEvent::Compiled(false)), fin(TestOutcome::Failed));
    assert_eq!(next_step(&TestResult::Ret(1), &StageEvent::Compiled(true)), NextStep::Link);
    assert_eq!(next_step(&TestResult::Abort, &StageEvent::Compiled(false)), fin(TestOutcome::Failed));
    assert_eq!(next_step(&TestResult::Abort, &StageEvent::Linked(true)), NextStep::Run);
    assert_eq!(next_step(&TestResult::Abort, &StageEvent::Linked(false)), fin(TestOutcome::Failed));
    assert_eq!(next_step(&TestResult::Ret(0), &StageEvent::Faulted), fin(TestOutcome::Failed));
}

fn run_through(d: TestResult, report: ExitReport, stdout: &str) -> TestOutcome {
    assert_eq!(next_step(&d, &StageEvent::Compiled(true)), NextStep::Link);
    assert_eq!(next_step(&d, &StageEvent::Linked(true)), NextStep::Run);
    let ev = match process_result(report, stdout, &LINUX) {
        Ok(o) => StageEvent::Ran(o),
        Err(_) => StageEvent::Faulted,
    };
    match next_step(&d, &ev) {
        NextStep::Finish(o) => o,
        other => panic!("unexpected step {:?}", other),
    }
}

#[test]
fn returning_zero_passes_and_scores_one() {
    let v = run_through(TestResult::Ret(0), ExitReport::Exited(0), "0\n");
    assert_eq!(v, TestOutcome::Passed);
    assert_eq!(FinalScore::from_verdicts(&vec![v]).score_tenths(), 10);
}

#[test]
fn abort_signal_passes_abort_test() {
    let v = run_through(TestResult::Abort, ExitReport::Signaled(6), "");
    assert_eq!(v, TestOutcome::Passed);
}

#[test]
fn deadline_gives_timeout_and_a_tenth() {
    let v = run_through(TestResult::Ret(4), ExitReport::Expired, "");
    assert_eq!(v, TestOutcome::TimedOut);
    assert_eq!(FinalScore::from_verdicts(&vec![v]).score_tenths(), 1);
}

#[test]
fn malformed_output_fails() {
    let v = run_through(TestResult::Ret(4), ExitReport::Exited(0), "four\n");
    assert_eq!(v, TestOutcome::Failed);
}

#[test]
fn score_counts_verdicts() {
    let s = FinalScore::from_verdicts(&vec![TestOutcome::Passed, TestOutcome::Failed, TestOutcome::TimedOut, TestOutcome::Passed, TestOutcome::Passed, TestOutcome::TimedOut]);
    assert_eq!((s.passed(), s.failed(), s.timed_out()), (3, 1, 2));
    assert_eq!(s.score_tenths(), 22);
    let empty = FinalScore::from_verdicts(&vec![]);
    assert_eq!((empty.passed(), empty.failed(), empty.timed_out()), (0, 0, 0));
    assert_eq!(empty.score_tenths(), 0);
    let bad = FinalScore::from_verdicts(&vec![TestOutcome::Failed, TestOutcome::Failed, TestOutcome::Passed]);
    assert_eq!(bad.score_tenths(), -10);
}

#[test]
fn score_ignores_order() {
    let a = vec![TestOutcome::Passed, TestOutcome::Failed, TestOutcome::TimedOut, TestOutcome::Passed];
    let b = vec![TestOutcome::TimedOut, TestOutcome::Passed, TestOutcome::Passed, TestOutcome::Failed];
    assert_eq!(FinalScore::from_verdicts(&a), FinalScore::from_verdicts(&b));
}

#[test]
fn record_adds_one() {
    let mut s = FinalScore::new();
    s.record(TestOutcome::TimedOut);
    s.record(TestOutcome::Passed);
    assert_eq!((s.passed(), s.failed(), s.timed_out()), (1, 0, 1));
    assert_eq!(s.score_tenths(), 11);
}

#[test]
fn assembly_name_appends_extension() {
    assert_eq!(add_extension("/tmp/x/a.l3", "s"), "/tmp/x/a.l3.s");
    assert_eq!(add_extension("/tmp/x/prog", "s"), "/tmp/x/prog.s");
    assert_eq!(add_extension(".hidden", "s"), ".hidden.s");
    assert_eq!(add_extension("a.", "s"), "a..s");
    assert_eq!(add_extension("a.b/c", "s"), "a.b/c.s");
}

#[test]
fn assembly_name_drops_trailing_separators() {
    assert_eq!(add_extension("a/b/", "s"), "a/b.s");
    assert_eq!(add_extension("a/b//", "s"), "a/b.s");
    assert_eq!(add_extension("a/b/./", "s"), "a/b.s");
    assert_eq!(add_extension("a/b/.", "s"), "a/b.s");
}

#[test]
fn path_without_file_name_is_unchanged() {
    assert_eq!(add_extension("/", "s"), "/");
    assert_eq!(add_extension("a/..", "s"), "a/..");
    assert_eq!(add_extension(".", "s"), ".");
    assert_eq!(add_extension("./", "s"), "./");
    assert_eq!(add_extension("/.", "s"), "/.");
    assert_eq!(add_extension("", "s"), "");
}

#[test]
fn empty_extension_follows_the_name() {
    assert_eq!(add_extension("x", ""), "x");
    assert_eq!(add_extension("x/", ""), "x");
    assert_eq!(add_extension("x.c0", ""), "x.c0.");
}

#[test]
fn record_counts_one_more_each_time() {
    let mut s = FinalScore::new();
    for _ in 0..3 {
        s.record(TestOutcome::Failed);
    }
    assert_eq!(s.passed() + s.failed() + s.timed_out(), 3);
}
