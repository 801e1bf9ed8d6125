//! The monitoring wrapper's decisions: what a measured value and two alert
//! ranges come to, and what is reported where the remote output is passed on
//! as it is.

use vstd::prelude::*;
use vstd::string::StringExecFns;
use crate::result::CommandResult;
use crate::text::{chars_of, push_signed_decimal, signed_decimal, string_of};
use crate::threshold::{alerts, decimal_of, parse_decimal, range_of, Decimal, Threshold};

verus! {

/// The state that a check reports.
#[derive(Clone, Copy, Debug, PartialEq, Eq, Structural)]
pub enum Status {
    Okay,
    Warning,
    Critical,
    Unknown,
}

impl Status {
    /// The exit code of a state: 0, 1, 2 and 3, in the order of the states.
    pub open spec fn spec_code(self) -> i32 {
        match self {
            Status::Okay => 0,
            Status::Warning => 1,
            Status::Critical => 2,
            Status::Unknown => 3,
        }
    }

    /// The exit code of the state.
    pub fn code(self) -> (c: i32)
        ensures
            c == self.spec_code(),
    {
        match self {
            Status::Okay => 0,
            Status::Warning => 1,
            Status::Critical => 2,
            Status::Unknown => 3,
        }
    }
}

/// Whether `c` is white space: a blank, a tab, a line or page break, or one
/// of the spaces of Unicode.
pub open spec fn is_space(c: char) -> bool {
    let n = c as u32;
    ||| 9 <= n <= 13
    ||| n == 32
    ||| n == 0x85
    ||| n == 0xA0
    ||| n == 0x1680
    ||| 0x2000 <= n <= 0x200A
    ||| n == 0x2028
    ||| n == 0x2029
    ||| n == 0x202F
    ||| n == 0x205F
    ||| n == 0x3000
}

/// `s` without the white space at its start.
pub open spec fn trim_start(s: Seq<char>) -> Seq<char>
    decreases s.len(),
{
    if s.len() > 0 && is_space(s[0]) {
        trim_start(s.drop_first())
    } else {
        s
    }
}

/// `s` without the white space at its end.
pub open spec fn trim_end(s: Seq<char>) -> Seq<char>
    decreases s.len(),
{
    if s.len() > 0 && is_space(s.last()) {
        trim_end(s.drop_last())
    } else {
        s
    }
}

/// `s` without the white space at its two ends.
pub open spec fn trimmed(s: Seq<char>) -> Seq<char> {
    trim_end(trim_start(s))
}

fn space(c: char) -> (r: bool)
    ensures
        r == is_space(c),
{
    let n: u32 = c as u32;
    (9 <= n && n <= 13) || n == 32 || n == 0x85 || n == 0xA0 || n == 0x1680 || (0x2000 <= n && n
        <= 0x200A) || n == 0x2028 || n == 0x2029 || n == 0x202F || n == 0x205F || n == 0x3000
}

/// Drops the white space at the two ends of `s`.
pub fn trim(s: &str) -> (out: String)
    ensures
        out@ == trimmed(s@),
{
    let t = chars_of(s);
    let mut from: usize = 0;
    assert(t@.skip(0) == t@);
    while from < t.len() && space(t[from])
        invariant
            from <= t.len(),
            trim_start(t@) == trim_start(t@.skip(from as int)),
        decreases t.len() - from,
    {
        assert(t@.skip(from as int).drop_first() == t@.skip(from + 1));
        from += 1;
    }
    let mut to: usize = t.len();
    while to > from && space(t[to - 1])
        invariant
            from <= to <= t.len(),
            trimmed(t@) == trim_end(t@.subrange(from as int, to as int)),
        decreases to - from,
    {
        assert(t@.subrange(from as int, to as int).drop_last() == t@.subrange(
            from as int,
            to - 1,
        ));
        to -= 1;
    }
    string_of(&t, from, to)
}

/// The state for a value that a range may alert on, and `otherwise` where it
/// does not; unknown where the range is none.
pub open spec fn alert_or(
    range: Option<Seq<char>>,
    v: crate::threshold::DecimalModel,
    alert: Status,
    otherwise: Status,
) -> Status {
    match range {
        None => otherwise,
        Some(text) => match range_of(text) {
            None => Status::Unknown,
            Some(t) => if alerts(t, v) {
                alert
            } else {
                otherwise
            },
        },
    }
}

/// The text of an optional range.
pub open spec fn range_text(range: Option<&str>) -> Option<Seq<char>> {
    match range {
        Some(r) => Some(r@),
        None => None,
    }
}

/// The state of a check. The value is the output without the white space
/// around it. The critical range is looked at first, the warning range
/// second, and a value that alerts on neither is in order. An output that is
/// no number, or a range that is none, leaves the state unknown.
pub open spec fn status_of(
    output: Seq<char>,
    warning: Option<Seq<char>>,
    critical: Option<Seq<char>>,
) -> Status {
    match decimal_of(trimmed(output)) {
        None => Status::Unknown,
        Some(v) => alert_or(
            critical,
            v,
            Status::Critical,
            alert_or(warning, v, Status::Warning, Status::Okay),
        ),
    }
}

fn judge(range: Option<&str>, value: &Decimal, alert: Status, otherwise: Status) -> (r: Status)
    ensures
        r == alert_or(range_text(range), value@, alert, otherwise),
{
    match range {
        None => otherwise,
        Some(text) => match Threshold::parse(text) {
            None => Status::Unknown,
            Some(t) => if t.should_alert(value) {
                alert
            } else {
                otherwise
            },
        },
    }
}

/// Decides the state of a check from the output of the command and the two
/// ranges.
pub fn evaluate(output: &str, warning: Option<&str>, critical: Option<&str>) -> (r: Status)
    ensures
        r == status_of(output@, range_text(warning), range_text(critical)),
{
    let text = trim(output);
    match parse_decimal(text.as_str()) {
        None => Status::Unknown,
        Some(value) => {
            let lesser = judge(warning, &value, Status::Warning, Status::Okay);
            judge(critical, &value, Status::Critical, lesser)
        },
    }
}

/// What is printed, and the exit code, where the remote output is passed on.
#[derive(Debug)]
pub struct RawReport {
    pub output: String,
    pub code: i32,
}

/// The text passed on for a result: its standard output where that is not
/// empty, else its standard error where that is not empty, else a line that
/// names the exit code where that is not 0, else "OK".
pub open spec fn raw_text(stdout: Seq<char>, stderr: Seq<char>, code: i32) -> Seq<char> {
    if stdout.len() > 0 {
        stdout
    } else if stderr.len() > 0 {
        stderr
    } else if code != 0 {
        "Error: exit code is "@ + signed_decimal(code as int)
    } else {
        "OK"@
    }
}

/// The report that passes a result on. There is none for a result that
/// lacks an output or the exit code.
pub fn raw_report(result: &CommandResult) -> (r: Option<RawReport>)
    ensures
        r is Some <==> result.stdout is Some && result.stderr is Some && result.exit_code is Some,
        r matches Some(report) ==> report.code == result.exit_code->0 && report.output@
            == raw_text(result.stdout->0@, result.stderr->0@, result.exit_code->0),
{
    match (&result.stdout, &result.stderr, result.exit_code) {
        (Some(stdout), Some(stderr), Some(code)) => {
            let output = if !stdout.as_str().is_empty() {
                stdout.clone()
            } else if !stderr.as_str().is_empty() {
                stderr.clone()
            } else if code != 0 {
                let mut text = String::from_str("Error: exit code is ");
                push_signed_decimal(&mut text, code as i64);
                text
            } else {
                String::from_str("OK")
            };
            Some(RawReport { output, code })
        },
        _ => None,
    }
}

/// The exit code for a request that failed, on either side: 3, or 0 where
/// failures are to be kept quiet.
pub fn failure_code(quiet: bool) -> (code: i32)
    ensures
        code == (if quiet {
            0i32
        } else {
            3i32
        }),
{
    if quiet {
        0
    } else {
        3
    }
}

} // verus!
