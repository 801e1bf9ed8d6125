//! The values that travel between server and client: the parameters of a
//! request and the result of a command.

use vstd::prelude::*;

verus! {

/// A span of time counted in whole seconds and nanoseconds.
#[derive(Clone, Copy, Debug, PartialEq, Eq)]
pub struct Seconds {
    pub secs: u64,
    pub nanos: u32,
}

impl Seconds {
    /// No time at all.
    pub fn zero() -> (r: Seconds)
        ensures
            r.secs == 0,
            r.nanos == 0,
    {
        Seconds { secs: 0, nanos: 0 }
    }
}

/// The query parameters of one request.
#[derive(Debug)]
pub struct CommandParams {
    pub chunked: Option<u8>,
    pub argument: Option<String>,
    pub format: Option<String>,
}

/// What a command produced. Every field is optional; which ones are set tells
/// the three shapes apart.
#[derive(Debug)]
pub struct CommandResult {
    pub stdout: Option<String>,
    pub stderr: Option<String>,
    pub exit_code: Option<i32>,
    pub time_cost: Option<Seconds>,
    pub start_time: Option<Seconds>,
    pub error: Option<String>,
}

/// The gauges that describe one result to a metrics scraper.
#[derive(Clone, Copy, Debug, PartialEq, Eq)]
pub struct Gauges {
    pub success: bool,
    pub return_code: i32,
    pub time_cost: Seconds,
}

impl CommandResult {
    /// The shape of a buffered success: everything but `error` is set.
    pub open spec fn is_ok_shape(&self) -> bool {
        &&& self.stdout is Some
        &&& self.stderr is Some
        &&& self.exit_code is Some
        &&& self.time_cost is Some
        &&& self.start_time is Some
        &&& self.error is None
    }

    /// The shape of a streamed success: as a buffered one, without the two
    /// output texts.
    pub open spec fn is_chunked_ok_shape(&self) -> bool {
        &&& self.stdout is None
        &&& self.stderr is None
        &&& self.exit_code is Some
        &&& self.time_cost is Some
        &&& self.start_time is Some
        &&& self.error is None
    }

    /// The shape of a failure: `error` is set and nothing else.
    pub open spec fn is_err_shape(&self) -> bool {
        &&& self.stdout is None
        &&& self.stderr is None
        &&& self.exit_code is None
        &&& self.time_cost is None
        &&& self.start_time is None
        &&& self.error is Some
    }

    /// The result of a command that ran to its end with its output captured.
    pub fn ok(
        stdout: String,
        stderr: String,
        exit_code: i32,
        time_cost: Seconds,
        start_time: Seconds,
    ) -> (r: Self)
        ensures
            r.stdout == Some(stdout),
            r.stderr == Some(stderr),
            r.exit_code == Some(exit_code),
            r.time_cost == Some(time_cost),
            r.start_time == Some(start_time),
            r.error is None,
            r.is_ok_shape(),
    {
        CommandResult {
            stdout: Some(stdout),
            stderr: Some(stderr),
            exit_code: Some(exit_code),
            time_cost: Some(time_cost),
            start_time: Some(start_time),
            error: None,
        }
    }

    /// The result of a command that ran to its end while its output was
    /// streamed.
    pub fn chunked_ok(exit_code: i32, time_cost: Seconds, start_time: Seconds) -> (r: Self)
        ensures
            r.stdout is None,
            r.stderr is None,
            r.exit_code == Some(exit_code),
            r.time_cost == Some(time_cost),
            r.start_time == Some(start_time),
            r.error is None,
            r.is_chunked_ok_shape(),
    {
        CommandResult {
            stdout: None,
            stderr: None,
            exit_code: Some(exit_code),
            time_cost: Some(time_cost),
            start_time: Some(start_time),
            error: None,
        }
    }

    /// The result that reports a failure.
    pub fn err(err: String) -> (r: Self)
        ensures
            r.error == Some(err),
            r.is_err_shape(),
    {
        CommandResult {
            stdout: None,
            stderr: None,
            exit_code: None,
            time_cost: None,
            start_time: None,
            error: Some(err),
        }
    }

    /// The gauges of a result: success only for exit code 0 without an error;
    /// return code and time cost only where there is an exit code and no
    /// error, and zero otherwise.
    pub open spec fn spec_gauges(&self) -> Gauges {
        if self.error is None && self.exit_code is Some {
            Gauges {
                success: self.exit_code->0 == 0,
                return_code: self.exit_code->0,
                time_cost: if self.time_cost is Some {
                    self.time_cost->0
                } else {
                    Seconds { secs: 0, nanos: 0 }
                },
            }
        } else {
            Gauges { success: false, return_code: 0, time_cost: Seconds { secs: 0, nanos: 0 } }
        }
    }

    /// The gauges that a Prometheus scraper is shown for this result. The
    /// caller renders them in the text format.
    pub fn to_prometheus(&self) -> (g: Gauges)
        ensures
            g == self.spec_gauges(),
    {
        let none = Gauges { success: false, return_code: 0, time_cost: Seconds::zero() };
        if self.error.is_some() {
            none
        } else {
            match self.exit_code {
                Some(code) => Gauges {
                    success: code == 0,
                    return_code: code,
                    time_cost: match self.time_cost {
                        Some(t) => t,
                        None => Seconds::zero(),
                    },
                },
                None => none,
            }
        }
    }

    /// The exit status that a client reports for this result: 3 for a
    /// failure, the command's exit code otherwise, and -2 where a result
    /// without failure carries no exit code.
    pub open spec fn spec_client_status(&self) -> i32 {
        if self.error is Some {
            3
        } else if self.exit_code is Some {
            self.exit_code->0
        } else {
            (-2) as i32
        }
    }

    /// The exit status that a client reports for this result.
    pub fn client_status(&self) -> (code: i32)
        ensures
            code == self.spec_client_status(),
    {
        if self.error.is_some() {
            3
        } else {
            match self.exit_code {
                Some(code) => code,
                None => -2,
            }
        }
    }
}

} // verus!
