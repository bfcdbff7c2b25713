//! The expectation line of a test file: `//test <kind> [<int>]`.
use vstd::prelude::*;
use crate::text::{i32_value, is_whitespace, is_ws, parse_i32, split_words, words};

verus! {

/// What a test program is expected to do.
#[derive(Debug, Clone, Copy, PartialEq, Eq, Structural)]
pub enum TestResult {
    /// Run and report the given value.
    Ret(i32),
    /// Compile, then die of a floating-point exception.
    DivByZero,
    /// Compile, then die of the abort signal.
    Abort,
    /// Compile, then die of the second user-defined signal.
    MemError,
    /// Be rejected by the compiler.
    SourceError,
    /// Pass the compiler's checks; it is not run.
    TypeCheck,
    /// Compile; it is not run.
    Compile,
}

/// Why an expectation line was refused.
#[derive(Debug, Clone, Copy, PartialEq, Eq, Structural)]
pub enum MalformedDirective {
    /// The file holds no character but whitespace.
    EmptyFile,
    /// The line has fewer than two words.
    TooShort,
    /// The first word is not the `//test` marker.
    NoMarker,
    /// The second word names no known kind.
    UnknownKind,
    /// A `return` line without exactly one value after the kind.
    MissingValue,
    /// A `return` value that is not a 32-bit signed decimal integer.
    BadValue,
}

/// The expectation stated by one line.
pub open spec fn directive_of(line: Seq<char>) -> Result<TestResult, MalformedDirective> {
    let w = words(line);
    if w.len() < 2 {
        Err(MalformedDirective::TooShort)
    } else if w[0] != "//test"@ {
        Err(MalformedDirective::NoMarker)
    } else if w[1] == "return"@ {
        if w.len() != 3 {
            Err(MalformedDirective::MissingValue)
        } else {
            match i32_value(w[2]) {
                Some(v) => Ok(TestResult::Ret(v)),
                None => Err(MalformedDirective::BadValue),
            }
        }
    } else if w[1] == "div-by-zero"@ {
        Ok(TestResult::DivByZero)
    } else if w[1] == "abort"@ {
        Ok(TestResult::Abort)
    } else if w[1] == "memerror"@ {
        Ok(TestResult::MemError)
    } else if w[1] == "error"@ {
        Ok(TestResult::SourceError)
    } else if w[1] == "typecheck"@ {
        Ok(TestResult::TypeCheck)
    } else if w[1] == "compile"@ {
        Ok(TestResult::Compile)
    } else {
        Err(MalformedDirective::UnknownKind)
    }
}

/// Whether the characters of `v` are exactly those of `lit`.
fn chars_eq(v: &Vec<char>, lit: &str) -> (r: bool)
    ensures
        r == (v@ == lit@),
{
    let n = lit.unicode_len();
    if v.len() != n {
        return false;
    }
    let mut i: usize = 0;
    while i < n
        invariant
            n == lit@.len(),
            n == v@.len(),
            i <= n,
            forall|j: int| 0 <= j < i ==> v@[j] == lit@[j],
        decreases n - i,
    {
        if v[i] != lit.get_char(i) {
            return false;
        }
        i += 1;
    }
    assert(v@ =~= lit@);
    true
}

/// Reads the expectation stated by one line.
pub fn parse_line(first_line: &str) -> (r: Result<TestResult, MalformedDirective>)
    ensures
        r == directive_of(first_line@),
{
    let w = split_words(first_line);
    proof {
        assert(w@.len() == words(first_line@).len());
    }
    if w.len() < 2 {
        return Err(MalformedDirective::TooShort);
    }
    assert(w@[0]@ == words(first_line@)[0]);
    assert(w@[1]@ == words(first_line@)[1]);
    if !chars_eq(&w[0], "//test") {
        return Err(MalformedDirective::NoMarker);
    }
    let kind = &w[1];
    if chars_eq(kind, "return") {
        if w.len() != 3 {
            return Err(MalformedDirective::MissingValue);
        }
        assert(w@[2]@ == words(first_line@)[2]);
        match parse_i32(&w[2]) {
            Some(v) => Ok(TestResult::Ret(v)),
            None => Err(MalformedDirective::BadValue),
        }
    } else if chars_eq(kind, "div-by-zero") {
        Ok(TestResult::DivByZero)
    } else if chars_eq(kind, "abort") {
        Ok(TestResult::Abort)
    } else if chars_eq(kind, "memerror") {
        Ok(TestResult::MemError)
    } else if chars_eq(kind, "error") {
        Ok(TestResult::SourceError)
    } else if chars_eq(kind, "typecheck") {
        Ok(TestResult::TypeCheck)
    } else if chars_eq(kind, "compile") {
        Ok(TestResult::Compile)
    } else {
        Err(MalformedDirective::UnknownKind)
    }
}

/// The number of whitespace characters at the start of `s`.
pub open spec fn leading_ws(s: Seq<char>) -> nat
    decreases s.len(),
{
    if s.len() > 0 && is_ws(s[0]) {
        1 + leading_ws(s.skip(1))
    } else {
        0
    }
}

/// The number of characters of `s` before its first line feed.
pub open spec fn line_len(s: Seq<char>) -> nat
    decreases s.len(),
{
    if s.len() > 0 && s[0] != '\n' {
        1 + line_len(s.skip(1))
    } else {
        0
    }
}

/// The first line of `s` that holds a non-whitespace character, from that
/// character to the end of the line.
pub open spec fn first_content_line(s: Seq<char>) -> Seq<char> {
    let rest = s.skip(leading_ws(s) as int);
    rest.take(line_len(rest) as int)
}

/// The expectation stated by the text of a test file: its first line that
/// is not blank, or `EmptyFile` where there is none.
pub open spec fn directive_of_text(s: Seq<char>) -> Result<TestResult, MalformedDirective> {
    if leading_ws(s) == s.len() {
        Err(MalformedDirective::EmptyFile)
    } else {
        directive_of(first_content_line(s))
    }
}

/// Reads the expectation of a test file from its whole text. Blank lines
/// before the expectation line are passed over; a file with nothing but
/// whitespace is refused as `EmptyFile`.
pub fn parse_test_text(text: &str) -> (r: Result<TestResult, MalformedDirective>)
    ensures
        r == directive_of_text(text@),
{
    let n = text.unicode_len();
    let ghost s = text@;
    let mut i: usize = 0;
    assert(s.skip(0) =~= s);
    while i < n && is_whitespace(text.get_char(i))
        invariant
            n == s.len(),
            s == text@,
            i <= n,
            leading_ws(s) == i + leading_ws(s.skip(i as int)),
        decreases n - i,
    {
        assert(s.skip(i as int).skip(1) =~= s.skip(i + 1));
        i += 1;
    }
    proof {
        if i < n {
            assert(s.skip(i as int)[0] == s[i as int]);
        } else {
            assert(s.skip(i as int).len() == 0);
        }
    }
    if i == n {
        return Err(MalformedDirective::EmptyFile);
    }
    let start = i;
    let ghost rest = s.skip(start as int);
    assert(line_len(s.skip(start as int)) == 0 + line_len(rest.skip(0))) by {
        assert(rest.skip(0) =~= rest);
    }
    while i < n && text.get_char(i) != '\n'
        invariant
            n == s.len(),
            s == text@,
            start <= i <= n,
            rest == s.skip(start as int),
            line_len(rest) == (i - start) + line_len(rest.skip(i - start)),
        decreases n - i,
    {
        assert(rest.skip(i - start).skip(1) =~= rest.skip(i - start + 1));
        assert(rest.skip(i - start)[0] == s[i as int]);
        i += 1;
    }
    proof {
        if i < n {
            assert(rest.skip(i - start)[0] == s[i as int]);
        } else {
            assert(rest.skip(i - start).len() == 0);
        }
    }
    let line = text.substring_char(start, i);
    assert(line@ =~= first_content_line(s));
    parse_line(line)
}

} // verus!
