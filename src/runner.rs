//! Reading how a test program ended, and judging it against its expectation.
use vstd::prelude::*;
use vstd::multiset::Multiset;
use vstd::seq_lib::group_to_multiset_ensures;
use crate::test_parser::TestResult;
use crate::text::{i32_value, parse_i32};

verus! {

/// How a compiled test program ended.
#[derive(Debug, Clone, Copy, PartialEq, Eq, Structural)]
pub enum ProcessResult {
    /// Exited with status 0; the value is the one its last output line reported.
    Success(i32),
    /// Exited with the given non-zero status.
    Failure(i32),
    /// Ran past its deadline and was killed.
    Timeout,
    /// Killed by the abort signal.
    SignalAbort,
    /// Killed by the second user-defined signal.
    SignalUsr2,
    /// Killed by a floating-point exception.
    SigFpe,
    /// Killed by another signal, with its number.
    OtherSignal(i32),
}

/// The verdict on one test.
#[derive(Debug, Clone, Copy, PartialEq, Eq, Structural)]
pub enum TestOutcome {
    Passed,
    TimedOut,
    Failed,
}

/// The verdict owed to a test with expectation `d` whose program ended as `o`.
pub open spec fn verdict(d: TestResult, o: ProcessResult) -> TestOutcome {
    match (d, o) {
        (TestResult::Ret(r), ProcessResult::Success(v)) => if r == v {
            TestOutcome::Passed
        } else {
            TestOutcome::Failed
        },
        (TestResult::Abort, ProcessResult::SignalAbort) => TestOutcome::Passed,
        (TestResult::MemError, ProcessResult::SignalUsr2) => TestOutcome::Passed,
        (TestResult::DivByZero, ProcessResult::SigFpe) => TestOutcome::Passed,
        (_, ProcessResult::Timeout) => TestOutcome::TimedOut,
        _ => TestOutcome::Failed,
    }
}

/// Judges how a test program ended against what its test file expects.
pub fn classify(d: &TestResult, o: &ProcessResult) -> (r: TestOutcome)
    ensures
        r == verdict(*d, *o),
{
    match (d, o) {
        (TestResult::Ret(r), ProcessResult::Success(v)) => if *r == *v {
            TestOutcome::Passed
        } else {
            TestOutcome::Failed
        },
        (TestResult::Abort, ProcessResult::SignalAbort) => TestOutcome::Passed,
        (TestResult::MemError, ProcessResult::SignalUsr2) => TestOutcome::Passed,
        (TestResult::DivByZero, ProcessResult::SigFpe) => TestOutcome::Passed,
        (_, ProcessResult::Timeout) => TestOutcome::TimedOut,
        _ => TestOutcome::Failed,
    }
}

/// The verdict depends on the expectation and the ending alone.
pub proof fn lemma_classification_deterministic(
    d1: TestResult,
    o1: ProcessResult,
    d2: TestResult,
    o2: ProcessResult,
)
    requires
        d1 == d2,
        o1 == o2,
    ensures
        verdict(d1, o1) == verdict(d2, o2),
{
}

/// A program that reports the value it was expected to return passes, and
/// one that reports the next value fails.
pub proof fn lemma_return_value_decides(r: i32)
    requires
        r < i32::MAX,
    ensures
        verdict(TestResult::Ret(r), ProcessResult::Success(r)) == TestOutcome::Passed,
        verdict(TestResult::Ret(r), ProcessResult::Success((r + 1) as i32))
            == TestOutcome::Failed,
{
}

/// A program killed at its deadline times out, whatever was expected of it.
pub proof fn lemma_timeout_whatever_expected(d: TestResult)
    ensures
        verdict(d, ProcessResult::Timeout) == TestOutcome::TimedOut,
{
}

/// The host's numbers for the signals that the harness tells apart.
#[derive(Debug, Clone, Copy, PartialEq, Eq, Structural)]
pub struct SignalNumbers {
    pub abort: i32,
    pub fpe: i32,
    pub usr2: i32,
}

impl SignalNumbers {
    /// No two of the three signals share a number.
    pub open spec fn wf(self) -> bool {
        &&& self.abort != self.fpe
        &&& self.abort != self.usr2
        &&& self.fpe != self.usr2
    }

    /// The numbers that the host's C library gives these signals.
    pub fn host() -> (r: SignalNumbers)
        ensures
            r.wf(),
    {
        host_signal_numbers()
    }
}

/// Relies on libc's `SIGABRT`, `SIGFPE` and `SIGUSR2` for the target, which
/// are three different signal numbers on every platform that defines them.
#[verifier::external_body]
fn host_signal_numbers() -> (r: SignalNumbers)
    ensures
        r.abort != r.fpe,
        r.abort != r.usr2,
        r.fpe != r.usr2,
{
    SignalNumbers { abort: libc::SIGABRT, fpe: libc::SIGFPE, usr2: libc::SIGUSR2 }
}

/// The ending of a program killed by signal `sig`.
pub open spec fn signal_result(sig: i32, nums: SignalNumbers) -> ProcessResult {
    if sig == nums.abort {
        ProcessResult::SignalAbort
    } else if sig == nums.fpe {
        ProcessResult::SigFpe
    } else if sig == nums.usr2 {
        ProcessResult::SignalUsr2
    } else {
        ProcessResult::OtherSignal(sig)
    }
}

/// Names the signal that killed a program.
pub fn decode_signal(sig: i32, nums: &SignalNumbers) -> (r: ProcessResult)
    ensures
        r == signal_result(sig, *nums),
{
    if sig == nums.abort {
        ProcessResult::SignalAbort
    } else if sig == nums.fpe {
        ProcessResult::SigFpe
    } else if sig == nums.usr2 {
        ProcessResult::SignalUsr2
    } else {
        ProcessResult::OtherSignal(sig)
    }
}

/// The index at which the line holding position `n - 1` of `t` starts: just
/// after the last line feed before `n`, or 0.
pub open spec fn line_start(t: Seq<char>, n: int) -> int
    decreases n,
{
    if n <= 0 {
        0
    } else if t[n - 1] == '\n' {
        n
    } else {
        line_start(t, n - 1)
    }
}

/// The last line of an output: one final line feed ends the last line and
/// does not start another, and a carriage return before it is dropped.
pub open spec fn last_line(s: Seq<char>) -> Seq<char> {
    let t = if s.len() > 0 && s.last() == '\n' {
        s.drop_last()
    } else {
        s
    };
    let l = t.skip(line_start(t, t.len() as int));
    if l.len() > 0 && l.last() == '\r' {
        l.drop_last()
    } else {
        l
    }
}

/// The value that a program reported: the integer on the last line of what
/// it printed.
pub open spec fn reported_value(s: Seq<char>) -> Option<i32> {
    i32_value(last_line(s))
}

/// Reads the value that a test program reported on the last line of its
/// standard output.
pub fn read_return_value(stdout: &str) -> (r: Option<i32>)
    ensures
        r == reported_value(stdout@),
{
    let ghost s = stdout@;
    let n = stdout.unicode_len();
    let mut end = n;
    if end > 0 && stdout.get_char(end - 1) == '\n' {
        end -= 1;
    }
    let ghost t = if s.len() > 0 && s.last() == '\n' {
        s.drop_last()
    } else {
        s
    };
    assert(t =~= s.take(end as int));
    let mut start = end;
    while start > 0 && stdout.get_char(start - 1) != '\n'
        invariant
            s == stdout@,
            n == s.len(),
            start <= end <= n,
            t == s.take(end as int),
            line_start(t, end as int) == line_start(t, start as int),
        decreases start,
    {
        assert(t[start - 1] == s[start - 1]);
        start -= 1;
    }
    proof {
        if start > 0 {
            assert(t[start - 1] == s[start - 1]);
        }
    }
    let ghost l = t.skip(start as int);
    let mut stop = end;
    if start < end && stdout.get_char(end - 1) == '\r' {
        stop -= 1;
    }
    let mut line: Vec<char> = Vec::new();
    let mut i: usize = start;
    while i < stop
        invariant
            s == stdout@,
            n == s.len(),
            start <= i <= stop <= end <= n,
            line@ == s.subrange(start as int, i as int),
        decreases stop - i,
    {
        line.push(stdout.get_char(i));
        assert(line@ =~= s.subrange(start as int, i + 1));
        i += 1;
    }
    assert(line@ =~= last_line(s));
    parse_i32(&line)
}

/// How the operating system reported the end of a test program.
#[derive(Debug, Clone, Copy, PartialEq, Eq, Structural)]
pub enum ExitReport {
    /// It exited with this status.
    Exited(i32),
    /// It was killed by the signal with this number.
    Signaled(i32),
    /// It was still running at its deadline, and was killed and reaped.
    Expired,
}

/// The output of a program that exited with status 0 did not end with a
/// line holding an integer.
#[derive(Debug, Clone, Copy, PartialEq, Eq, Structural)]
pub enum MalformedOutput {
    NoReturnValue,
}

/// The ending that a report and the program's output amount to.
pub open spec fn ending(report: ExitReport, stdout: Seq<char>, nums: SignalNumbers) -> Result<
    ProcessResult,
    MalformedOutput,
> {
    match report {
        ExitReport::Exited(code) => if code == 0 {
            match reported_value(stdout) {
                Some(v) => Ok(ProcessResult::Success(v)),
                None => Err(MalformedOutput::NoReturnValue),
            }
        } else {
            Ok(ProcessResult::Failure(code))
        },
        ExitReport::Signaled(sig) => Ok(signal_result(sig, nums)),
        ExitReport::Expired => Ok(ProcessResult::Timeout),
    }
}

/// Reads how a test program ended from the operating system's report and
/// the program's standard output.
pub fn process_result(report: ExitReport, stdout: &str, nums: &SignalNumbers) -> (r: Result<
    ProcessResult,
    MalformedOutput,
>)
    ensures
        r == ending(report, stdout@, *nums),
{
    match report {
        ExitReport::Exited(code) => if code == 0 {
            match read_return_value(stdout) {
                Some(v) => Ok(ProcessResult::Success(v)),
                None => Err(MalformedOutput::NoReturnValue),
            }
        } else {
            Ok(ProcessResult::Failure(code))
        },
        ExitReport::Signaled(sig) => Ok(decode_signal(sig, nums)),
        ExitReport::Expired => Ok(ProcessResult::Timeout),
    }
}

/// What the caller of the per-test steps reports back after a step.
#[derive(Debug, Clone, Copy, PartialEq, Eq, Structural)]
pub enum StageEvent {
    /// The compiler under test ran; `true` where it exited with status 0.
    Compiled(bool),
    /// The linker ran; `true` where it exited with status 0.
    Linked(bool),
    /// The linked program ended as given.
    Ran(ProcessResult),
    /// A step could not be carried out (a spawn or I/O error, or output that
    /// held no return value).
    Faulted,
}

/// What to do next for one test.
#[derive(Debug, Clone, Copy, PartialEq, Eq, Structural)]
pub enum NextStep {
    /// Link the compiler's output with the runtime support object.
    Link,
    /// Run the linked program under its deadline.
    Run,
    /// Stop with this verdict.
    Finish(TestOutcome),
}

/// The step owed after `ev` to a test that expects `d`. A test that expects
/// a source error passes when the compiler fails with any status; tests that
/// only check or compile stop after the compiler.
pub open spec fn step_after(d: TestResult, ev: StageEvent) -> NextStep {
    match ev {
        StageEvent::Compiled(ok) => match d {
            TestResult::SourceError => if ok {
                NextStep::Finish(TestOutcome::Failed)
            } else {
                NextStep::Finish(TestOutcome::Passed)
            },
            TestResult::TypeCheck | TestResult::Compile => if ok {
                NextStep::Finish(TestOutcome::Passed)
            } else {
                NextStep::Finish(TestOutcome::Failed)
            },
            _ => if ok {
                NextStep::Link
            } else {
                NextStep::Finish(TestOutcome::Failed)
            },
        },
        StageEvent::Linked(ok) => if ok {
            NextStep::Run
        } else {
            NextStep::Finish(TestOutcome::Failed)
        },
        StageEvent::Ran(o) => NextStep::Finish(verdict(d, o)),
        StageEvent::Faulted => NextStep::Finish(TestOutcome::Failed),
    }
}

/// Decides the next step of one test from what the last step did.
pub fn next_step(d: &TestResult, ev: &StageEvent) -> (r: NextStep)
    ensures
        r == step_after(*d, *ev),
{
    match ev {
        StageEvent::Compiled(ok) => match d {
            TestResult::SourceError => if *ok {
                NextStep::Finish(TestOutcome::Failed)
            } else {
                NextStep::Finish(TestOutcome::Passed)
            },
            TestResult::TypeCheck | TestResult::Compile => if *ok {
                NextStep::Finish(TestOutcome::Passed)
            } else {
                NextStep::Finish(TestOutcome::Failed)
            },
            _ => if *ok {
                NextStep::Link
            } else {
                NextStep::Finish(TestOutcome::Failed)
            },
        },
        StageEvent::Linked(ok) => if *ok {
            NextStep::Run
        } else {
            NextStep::Finish(TestOutcome::Failed)
        },
        StageEvent::Ran(o) => NextStep::Finish(classify(d, o)),
        StageEvent::Faulted => NextStep::Finish(TestOutcome::Failed),
    }
}

/// `s` without its trailing separators and trailing `.` components, which
/// name no file: `a/b/./` ends as `a/b`.
pub open spec fn trim_path_end(s: Seq<char>) -> Seq<char>
    decreases s.len(),
{
    if s.len() > 0 && s.last() == '/' {
        trim_path_end(s.drop_last())
    } else if s.len() >= 2 && s.last() == '.' && s[s.len() - 2] == '/' {
        trim_path_end(s.drop_last())
    } else {
        s
    }
}

/// The index at which the component holding position `n - 1` of `t` starts:
/// just after the last `/` before `n`, or 0.
pub open spec fn component_start(t: Seq<char>, n: int) -> int
    decreases n,
{
    if n <= 0 {
        0
    } else if t[n - 1] == '/' {
        n
    } else {
        component_start(t, n - 1)
    }
}

/// The last component of `path`, once trailing separators and `.`
/// components are set aside.
pub open spec fn last_component(path: Seq<char>) -> Seq<char> {
    let t = trim_path_end(path);
    t.skip(component_start(t, t.len() as int))
}

/// Whether `path` ends in a file name: a last component that is neither
/// missing (an empty path, the root) nor `.` nor `..`.
pub open spec fn has_file_name(path: Seq<char>) -> bool {
    let c = last_component(path);
    c.len() > 0 && c != seq!['.'] && c != seq!['.', '.']
}

/// Whether a file name has an extension: a `.` after its first character.
pub open spec fn name_has_extension(name: Seq<char>) -> bool {
    exists|i: int| 0 < i < name.len() && name[i] == '.'
}

/// The path with `.` and `extension` added after its whole file name, as
/// Unix paths go: what follows the file name (separators, `.` components) is
/// dropped, and a path without a file name is kept as it is. Where the name
/// has no extension and `extension` is empty, nothing is added.
pub open spec fn with_added_extension(path: Seq<char>, extension: Seq<char>) -> Seq<char> {
    if !has_file_name(path) {
        path
    } else {
        let base = trim_path_end(path);
        if name_has_extension(last_component(path)) || extension.len() > 0 {
            base + seq!['.'] + extension
        } else {
            base
        }
    }
}

/// Adds `.` and `extension` after the file name of a path, keeping the whole
/// old name: the name under which the compiler under test writes the code
/// it emits for a source file.
pub fn add_extension(path: &str, extension: &str) -> (r: String)
    ensures
        r@ == with_added_extension(path@, extension@),
{
    let ghost s = path@;
    let n = path.unicode_len();
    let mut end = n;
    assert(s.take(n as int) =~= s);
    while end > 0 && (path.get_char(end - 1) == '/' || (end >= 2 && path.get_char(end - 1) == '.'
        && path.get_char(end - 2) == '/'))
        invariant
            s == path@,
            n == s.len(),
            end <= n,
            trim_path_end(s) == trim_path_end(s.take(end as int)),
        decreases end,
    {
        assert(s.take(end as int).drop_last() =~= s.take(end - 1));
        end -= 1;
    }
    let ghost t = s.take(end as int);
    assert(trim_path_end(t) == t);
    let mut start = end;
    while start > 0 && path.get_char(start - 1) != '/'
        invariant
            s == path@,
            n == s.len(),
            start <= end <= n,
            t == s.take(end as int),
            component_start(t, end as int) == component_start(t, start as int),
        decreases start,
    {
        assert(t[start - 1] == s[start - 1]);
        start -= 1;
    }
    proof {
        if start > 0 {
            assert(t[start - 1] == s[start - 1]);
        }
    }
    let ghost c = t.skip(start as int);
    assert(c == last_component(s));
    let len = end - start;
    let is_dot = len == 1 && path.get_char(start) == '.';
    let is_dot_dot = len == 2 && path.get_char(start) == '.' && path.get_char(start + 1) == '.';
    proof {
        if len == 1 {
            assert(c[0] == s[start as int]);
            if !is_dot {
                assert(c != seq!['.']);
            } else {
                assert(c =~= seq!['.']);
            }
        } else {
            assert(c.len() != seq!['.'].len());
        }
        if len == 2 {
            assert(c[0] == s[start as int]);
            assert(c[1] == s[start + 1]);
            if !is_dot_dot {
                assert(c[0] != '.' || c[1] != '.');
                assert(c != seq!['.', '.']);
            } else {
                assert(c =~= seq!['.', '.']);
            }
        } else {
            assert(c.len() != seq!['.', '.'].len());
        }
    }
    if len == 0 || is_dot || is_dot_dot {
        return String::from_str(path);
    }
    let mut dotted = false;
    let mut i: usize = start + 1;
    while i < end
        invariant
            s == path@,
            n == s.len(),
            start < end <= n,
            start + 1 <= i <= end,
            c == s.subrange(start as int, end as int),
            dotted == exists|k: int| 0 < k < i - start && c[k] == '.',
        decreases end - i,
    {
        if path.get_char(i) == '.' {
            assert(c[i - start] == '.');
            dotted = true;
        }
        i += 1;
    }
    assert(dotted == name_has_extension(c));
    let mut out = String::from_str(path.substring_char(0, end));
    if dotted || extension.unicode_len() > 0 {
        out.append(".");
        out.append(extension);
        proof {
            reveal_strlit(".");
        }
    }
    out
}

/// The counts of verdicts over a run.
#[derive(Debug, Clone, Copy, PartialEq, Eq, Structural)]
pub struct FinalScore {
    passed: usize,
    failed: usize,
    timeout: usize,
}

/// How many verdicts of each kind the multiset `m` holds, as
/// (passed, failed, timed out).
pub open spec fn tally(m: Multiset<TestOutcome>) -> (nat, nat, nat) {
    (m.count(TestOutcome::Passed), m.count(TestOutcome::Failed), m.count(TestOutcome::TimedOut))
}

/// The score of a tally in tenths: ten for each pass, minus ten for each
/// failure, plus one for each timeout.
pub open spec fn tenths(t: (nat, nat, nat)) -> int {
    10 * t.0 - 10 * t.1 + t.2
}

/// A tally with one more verdict `v`.
pub open spec fn counted(t: (nat, nat, nat), v: TestOutcome) -> (nat, nat, nat) {
    match v {
        TestOutcome::Passed => ((t.0 + 1) as nat, t.1, t.2),
        TestOutcome::Failed => (t.0, (t.1 + 1) as nat, t.2),
        TestOutcome::TimedOut => (t.0, t.1, (t.2 + 1) as nat),
    }
}

proof fn lemma_tally_insert(m: Multiset<TestOutcome>, v: TestOutcome)
    ensures
        tally(m.insert(v)) == counted(tally(m), v),
{
    broadcast use vstd::multiset::group_multiset_axioms;

}

impl FinalScore {
    /// The counts, as (passed, failed, timed out).
    pub closed spec fn counts(self) -> (nat, nat, nat) {
        (self.passed as nat, self.failed as nat, self.timeout as nat)
    }

    /// The number of verdicts counted: the sum of the three counts.
    pub closed spec fn total(self) -> nat {
        (self.passed + self.failed + self.timeout) as nat
    }

    /// The number counted is the sum of the three counts.
    pub proof fn lemma_total_is_sum(self)
        ensures
            self.total() == self.counts().0 + self.counts().1 + self.counts().2,
    {
    }

    /// A score with nothing counted.
    pub fn new() -> (r: FinalScore)
        ensures
            r.counts() == (0nat, 0nat, 0nat),
            r.total() == 0,
    {
        FinalScore { passed: 0, failed: 0, timeout: 0 }
    }

    pub fn passed(&self) -> (r: usize)
        ensures
            r == self.counts().0,
    {
        self.passed
    }

    pub fn failed(&self) -> (r: usize)
        ensures
            r == self.counts().1,
    {
        self.failed
    }

    pub fn timed_out(&self) -> (r: usize)
        ensures
            r == self.counts().2,
    {
        self.timeout
    }

    /// Counts one more verdict.
    pub fn record(&mut self, v: TestOutcome)
        requires
            old(self).total() < usize::MAX,
        ensures
            final(self).counts() == counted(old(self).counts(), v),
            final(self).total() == old(self).total() + 1,
    {
        match v {
            TestOutcome::Passed => self.passed = self.passed + 1,
            TestOutcome::Failed => self.failed = self.failed + 1,
            TestOutcome::TimedOut => self.timeout = self.timeout + 1,
        }
    }

    /// Counts the verdicts of a run, in any order.
    pub fn from_verdicts(verdicts: &Vec<TestOutcome>) -> (r: FinalScore)
        ensures
            r.counts() == tally(verdicts@.to_multiset()),
            r.total() == verdicts@.len(),
            r.counts().0 + r.counts().1 + r.counts().2 == verdicts@.len(),
    {
        broadcast use group_to_multiset_ensures;

        let mut acc = FinalScore::new();
        let mut i: usize = 0;
        assert(verdicts@.take(0) =~= Seq::<TestOutcome>::empty());
        while i < verdicts.len()
            invariant
                i <= verdicts@.len(),
                acc.counts() == tally(verdicts@.take(i as int).to_multiset()),
                acc.total() == i,
            decreases verdicts.len() - i,
        {
            let v = verdicts[i];
            assert(verdicts@.take(i + 1) =~= verdicts@.take(i as int).push(v));
            proof {
                verdicts@.take(i as int).to_multiset_ensures();
                assert(verdicts@.take(i as int).push(v).to_multiset() == verdicts@.take(
                    i as int,
                ).to_multiset().insert(v));
                lemma_tally_insert(verdicts@.take(i as int).to_multiset(), v);
            }
            acc.record(v);
            i += 1;
        }
        assert(verdicts@.take(i as int) =~= verdicts@);
        acc
    }

    /// The score in tenths of a point: one point for each pass, minus one
    /// for each failure, plus a tenth for each timeout.
    pub fn score_tenths(&self) -> (r: i128)
        ensures
            r == tenths(self.counts()),
    {
        10 * (self.passed as i128) - 10 * (self.failed as i128) + self.timeout as i128
    }
}

/// Counting verdicts does not depend on their order: two runs whose verdicts
/// are the same multiset get the same counts and the same score.
pub proof fn lemma_aggregation_order_independent(a: Seq<TestOutcome>, b: Seq<TestOutcome>)
    requires
        a.to_multiset() == b.to_multiset(),
    ensures
        tally(a.to_multiset()) == tally(b.to_multiset()),
        tenths(tally(a.to_multiset())) == tenths(tally(b.to_multiset())),
        a.len() == b.len(),
{
    broadcast use group_to_multiset_ensures;

    a.to_multiset_ensures();
    b.to_multiset_ensures();
}

} // verus!
