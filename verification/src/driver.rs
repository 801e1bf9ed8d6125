//! The command-line client's decisions: which hosts to ask, what to print for
//! each answer, and the exit code that sums the answers up.

use vstd::prelude::*;
use vstd::string::StringExecFns;
use crate::result::CommandResult;
use crate::result::Seconds;
use crate::text::{
    decimal, push_decimal, push_signed_decimal, signed_decimal, split, split_text, views,
};
use crate::webclient::{Client, VERSION};

verus! {

/// The hosts of a comma-separated list, in order.
pub fn split_hosts(list: &str) -> (hosts: Vec<String>)
    ensures
        views(hosts@) == split(list@, ','),
{
    split_text(list, ',')
}

/// The name under which the command-line client asks.
pub open spec fn client_agent() -> Seq<char> {
    "Redarrow-client"@ + "/"@ + VERSION@
}

/// Whether `client` asks `host` for the command with the arguments, under
/// the name of the command-line client and with the default time to connect.
pub open spec fn is_client_for(
    client: Client,
    host: Seq<char>,
    port: u32,
    command: Seq<char>,
    arguments: Seq<Seq<char>>,
) -> bool {
    &&& client.host() == host
    &&& client.port() == port
    &&& client.command() == command
    &&& client.arguments() == arguments
    &&& client.agent() == client_agent()
    &&& client.timeout() == (Seconds { secs: 3, nanos: 0 })
}

/// The client that asks one host.
pub fn client_for(host: String, port: u32, command: String, arguments: Vec<String>) -> (client:
    Client)
    ensures
        is_client_for(client, host@, port, command@, views(arguments@)),
{
    let mut client = Client::new(host, port, command, arguments);
    client.set_user_agent("Redarrow-client");
    client
}

/// The clients that ask every host of a comma-separated list: one per host,
/// in the order of the list, each for the same command and arguments. No
/// client depends on another; the caller runs them side by side.
pub fn fan_out(hosts: &str, port: u32, command: &str, arguments: &Vec<String>) -> (clients: Vec<
    Client,
>)
    ensures
        clients@.len() == split(hosts@, ',').len(),
        forall|i: int|
            0 <= i < clients@.len() ==> is_client_for(
                #[trigger] clients@[i],
                split(hosts@, ',')[i],
                port,
                command@,
                views(arguments@),
            ),
{
    let names = split_hosts(hosts);
    let mut clients: Vec<Client> = Vec::new();
    let mut i: usize = 0;
    while i < names.len()
        invariant
            i <= names.len(),
            views(names@) == split(hosts@, ','),
            clients@.len() == i,
            forall|k: int|
                0 <= k < i ==> is_client_for(
                    #[trigger] clients@[k],
                    names@[k]@,
                    port,
                    command@,
                    views(arguments@),
                ),
        decreases names.len() - i,
    {
        let given = arguments.clone();
        clients.push(client_for(names[i].clone(), port, String::from_str(command), given));
        i += 1;
    }
    clients
}

/// Whether a host list names more than one host.
pub fn is_host_list(list: &str) -> (r: bool)
    ensures
        r == list@.contains(','),
{
    let chars = crate::text::chars_of(list);
    let mut i: usize = 0;
    while i < chars.len()
        invariant
            i <= chars.len(),
            chars@ == list@,
            forall|k: int| 0 <= k < i ==> list@[k] != ',',
        decreases chars.len() - i,
    {
        if chars[i] == ',' {
            return true;
        }
        i += 1;
    }
    false
}

/// The line that separates the answers of two hosts.
pub open spec fn separator() -> Seq<char> {
    "\n----------------------------------------\n"@
}

/// What is printed for the answer of one host, and the exit code that the
/// host is recorded with. `head` goes to standard output first, `diagnostics`
/// to standard error next, `tail` to standard output last.
#[derive(Debug)]
pub struct HostReport {
    pub head: String,
    pub diagnostics: String,
    pub tail: String,
    pub code: i32,
}

/// A report over views.
pub struct HostReportModel {
    pub head: Seq<char>,
    pub diagnostics: Seq<char>,
    pub tail: Seq<char>,
    pub code: i32,
}

impl View for HostReport {
    type V = HostReportModel;

    open spec fn view(&self) -> HostReportModel {
        HostReportModel {
            head: self.head@,
            diagnostics: self.diagnostics@,
            tail: self.tail@,
            code: self.code,
        }
    }
}

/// The text of an optional output, or what stands in for a missing one.
pub open spec fn text_or(value: Option<String>, missing: Seq<char>) -> Seq<char> {
    match value {
        Some(s) => s@,
        None => missing,
    }
}

/// The report for `host`. A failure is shown under its own banner and
/// recorded with exit code 3. Any other answer is shown with its output and
/// recorded with its exit code, or with -2 where it has none.
pub open spec fn report_of(host: Seq<char>, result: CommandResult) -> HostReportModel {
    let banner = ">>>>> "@ + host + " <<<<<\n"@;
    match result.error {
        Some(error) => HostReportModel {
            head: banner + ">>>>> "@ + host + " returns error: <<<<<\n"@,
            diagnostics: error@,
            tail: separator(),
            code: 3,
        },
        None => HostReportModel {
            head: banner + text_or(result.stdout, "Error: stdout None"@),
            diagnostics: text_or(result.stderr, "Error: stderr None"@),
            tail: ">>>>> "@ + host + " returns "@ + signed_decimal(
                result.spec_client_status() as int,
            ) + " <<<<<\n"@ + separator(),
            code: result.spec_client_status(),
        },
    }
}

/// Builds the report for the answer of one host.
pub fn host_report(host: &str, result: &CommandResult) -> (report: HostReport)
    ensures
        report@ == report_of(host@, *result),
{
    let mut head = String::from_str(">>>>> ");
    head.append(host);
    head.append(" <<<<<\n");
    match &result.error {
        Some(error) => {
            head.append(">>>>> ");
            head.append(host);
            head.append(" returns error: <<<<<\n");
            let report = HostReport {
                head,
                diagnostics: error.clone(),
                tail: String::from_str("\n----------------------------------------\n"),
                code: 3,
            };
            report
        },
        None => {
            match &result.stdout {
                Some(s) => {
                    head.append(s.as_str());
                },
                None => {
                    head.append("Error: stdout None");
                },
            }
            let diagnostics = match &result.stderr {
                Some(s) => s.clone(),
                None => String::from_str("Error: stderr None"),
            };
            let code = result.client_status();
            let mut tail = String::from_str(">>>>> ");
            tail.append(host);
            tail.append(" returns ");
            push_signed_decimal(&mut tail, code as i64);
            tail.append(" <<<<<\n");
            tail.append("\n----------------------------------------\n");
            let report = HostReport { head, diagnostics, tail, code };
            report
        },
    }
}

/// Where the lines of a single host's stream go.
#[derive(Clone, Copy, Debug, PartialEq, Eq, Structural)]
pub enum Printer {
    /// Print the line on standard output.
    Stdout,
    /// Print the line on standard error.
    Stderr,
    /// The stream is over: stop printing.
    Stop,
    /// The descriptor is none of the three: report the line.
    Unknown,
}

/// The destination of a line by its file descriptor.
pub fn printer_for(fd: i8) -> (p: Printer)
    ensures
        p == (if fd == 0 {
            Printer::Stop
        } else if fd == 1 {
            Printer::Stdout
        } else if fd == 2 {
            Printer::Stderr
        } else {
            Printer::Unknown
        }),
{
    if fd == 0 {
        Printer::Stop
    } else if fd == 1 {
        Printer::Stdout
    } else if fd == 2 {
        Printer::Stderr
    } else {
        Printer::Unknown
    }
}

/// How a request to a single host ends: `diagnostics` for standard error,
/// empty where there is nothing to say, and the exit code of the client.
#[derive(Debug)]
pub struct SingleOutcome {
    pub diagnostics: String,
    pub code: i32,
}

/// The end of a request to a single host. A request that failed on the
/// client's side and a failure reported by the server both exit with 3,
/// under different headings; any other answer exits with its own code.
pub fn single_outcome(answer: &Result<CommandResult, String>) -> (outcome: SingleOutcome)
    ensures
        match *answer {
            Err(e) => outcome.code == 3 && outcome.diagnostics@ == "ClientError: "@ + e@ + "\n"@,
            Ok(res) => outcome.code == res.spec_client_status() && match res.error {
                Some(e) => outcome.diagnostics@ == "ServerError: "@ + e@ + "\n"@,
                None => outcome.diagnostics@.len() == 0,
            },
        },
{
    match answer {
        Err(e) => {
            let mut diagnostics = String::from_str("ClientError: ");
            diagnostics.append(e.as_str());
            diagnostics.append("\n");
            SingleOutcome { diagnostics, code: 3 }
        },
        Ok(res) => match &res.error {
            Some(e) => {
                let mut diagnostics = String::from_str("ServerError: ");
                diagnostics.append(e.as_str());
                diagnostics.append("\n");
                SingleOutcome { diagnostics, code: 3 }
            },
            None => SingleOutcome { diagnostics: String::new(), code: res.client_status() },
        },
    }
}

/// The recorded exit code of one host.
#[derive(Debug)]
pub struct HostStatus {
    pub host: String,
    pub code: i32,
}

/// Whether no host occurs twice.
pub open spec fn distinct_hosts(entries: Seq<(Seq<char>, i32)>) -> bool {
    forall|i: int, j: int|
        0 <= i < j < entries.len() ==> (#[trigger] entries[i]).0 != (#[trigger] entries[j]).0
}

/// Whether `host` has an entry.
pub open spec fn has_host(entries: Seq<(Seq<char>, i32)>, host: Seq<char>) -> bool {
    exists|i: int| 0 <= i < entries.len() && (#[trigger] entries[i]).0 == host
}

/// The entries after `host` was recorded with `code`: the entry of a host
/// that has one is replaced where it stands, a new host goes to the end.
pub open spec fn recorded(entries: Seq<(Seq<char>, i32)>, host: Seq<char>, code: i32) -> Seq<
    (Seq<char>, i32),
> {
    if has_host(entries, host) {
        let i = choose|i: int| 0 <= i < entries.len() && (#[trigger] entries[i]).0 == host;
        entries.update(i, (host, code))
    } else {
        entries.push((host, code))
    }
}

/// The entries whose exit code is not 0, in order.
pub open spec fn bad_of(entries: Seq<(Seq<char>, i32)>) -> Seq<(Seq<char>, i32)>
    decreases entries.len(),
{
    if entries.len() == 0 {
        Seq::<(Seq<char>, i32)>::empty()
    } else if entries.last().1 != 0 {
        bad_of(entries.drop_last()).push(entries.last())
    } else {
        bad_of(entries.drop_last())
    }
}

/// Whether every host answered with exit code 0.
pub open spec fn all_zero(entries: Seq<(Seq<char>, i32)>) -> bool {
    forall|i: int| 0 <= i < entries.len() ==> (#[trigger] entries[i]).1 == 0
}

/// One line per entry: the host, a colon, its exit code.
pub open spec fn host_lines(entries: Seq<(Seq<char>, i32)>) -> Seq<char>
    decreases entries.len(),
{
    if entries.len() == 0 {
        Seq::<char>::empty()
    } else {
        host_lines(entries.drop_last()) + entries.last().0 + ": "@ + signed_decimal(
            entries.last().1 as int,
        ) + "\n"@
    }
}

/// The summary of a run over several hosts: how many answered, how many of
/// them with exit code 0, and the others by name with their codes.
pub open spec fn summary_of(entries: Seq<(Seq<char>, i32)>) -> Seq<char> {
    let bad = bad_of(entries);
    let counts = decimal(entries.len()) + " hosts in total, "@ + decimal(
        (entries.len() - bad.len()) as nat,
    ) + " are okay.\n"@;
    if bad.len() > 0 {
        counts + "There is something wrong with these hosts:\n"@ + host_lines(bad)
    } else {
        counts
    }
}

/// The bad entries are no more than the entries, and there are none exactly
/// when every exit code is 0.
pub proof fn lemma_bad_of(entries: Seq<(Seq<char>, i32)>)
    ensures
        bad_of(entries).len() <= entries.len(),
        bad_of(entries).len() == 0 <==> all_zero(entries),
        forall|k: int| 0 <= k < bad_of(entries).len() ==> (#[trigger] bad_of(entries)[k]).1 != 0,
    decreases entries.len(),
{
    if entries.len() > 0 {
        let head = entries.drop_last();
        lemma_bad_of(head);
        if entries.last().1 == 0 && all_zero(head) {
            assert forall|i: int| 0 <= i < entries.len() implies (#[trigger] entries[i]).1
                == 0 by {
                if i < head.len() {
                    assert(head[i] == entries[i]);
                }
            }
        }
    }
}

/// The recorded exit codes over views.
pub open spec fn statuses_view(entries: Seq<HostStatus>) -> Seq<(Seq<char>, i32)> {
    Seq::new(entries.len(), |i: int| (entries[i].host@, entries[i].code))
}

/// The exit codes of the hosts that have answered, one entry per host.
#[derive(Debug)]
pub struct Tally {
    entries: Vec<HostStatus>,
}

impl View for Tally {
    type V = Seq<(Seq<char>, i32)>;

    closed spec fn view(&self) -> Seq<(Seq<char>, i32)> {
        statuses_view(self.entries@)
    }
}

impl Tally {
    #[verifier::type_invariant]
    spec fn well_formed(&self) -> bool {
        distinct_hosts(self@)
    }

    /// A tally without entries.
    pub fn new() -> (r: Self)
        ensures
            r@.len() == 0,
    {
        Tally { entries: Vec::new() }
    }

    /// Records the exit code of a host. A host that answers again has its
    /// earlier code replaced.
    pub fn record(&mut self, host: String, code: i32)
        ensures
            distinct_hosts(old(self)@),
            distinct_hosts(final(self)@),
            final(self)@ == recorded(old(self)@, host@, code),
    {
        proof {
            use_type_invariant(&*self);
        }
        let ghost before = self@;
        let mut taken = Tally::new();
        core::mem::swap(self, &mut taken);
        let Tally { entries } = taken;
        let mut entries = entries;
        let mut i: usize = 0;
        let mut found: Option<usize> = None;
        while i < entries.len()
            invariant_except_break
                found is None,
                forall|k: int| 0 <= k < i ==> (#[trigger] before[k]).0 != host@,
            invariant
                i <= entries.len(),
                statuses_view(entries@) == before,
            ensures
                statuses_view(entries@) == before,
                match found {
                    Some(at) => at < entries.len() && before[at as int].0 == host@,
                    None => forall|k: int| 0 <= k < before.len() ==> (#[trigger] before[k]).0
                        != host@,
                },
            decreases entries.len() - i,
        {
            if entries[i].host == host {
                found = Some(i);
                break ;
            }
            i += 1;
        }
        match found {
            Some(at) => {
                entries.set(at, HostStatus { host, code });
                assert(distinct_hosts(statuses_view(entries@))) by {
                    assert forall|a: int, b: int|
                        0 <= a < b < statuses_view(entries@).len() implies (#[trigger] statuses_view(
                        entries@,
                    )[a]).0 != (#[trigger] statuses_view(entries@)[b]).0 by {
                        assert(before[a].0 != before[b].0);
                    }
                }
            },
            None => {
                entries.push(HostStatus { host, code });
                assert(distinct_hosts(statuses_view(entries@))) by {
                    assert forall|a: int, b: int|
                        0 <= a < b < statuses_view(entries@).len() implies (#[trigger] statuses_view(
                        entries@,
                    )[a]).0 != (#[trigger] statuses_view(entries@)[b]).0 by {
                        if b < before.len() {
                            assert(before[a].0 != before[b].0);
                        } else {
                            assert(before[a].0 != host@);
                        }
                    }
                }
            },
        }
        *self = Tally { entries };
    }

    /// The number of hosts that have answered.
    pub fn total(&self) -> (n: usize)
        ensures
            n == self@.len(),
    {
        self.entries.len()
    }

    /// The hosts whose exit code is not 0, with their codes.
    pub fn bad_hosts(&self) -> (bad: Vec<HostStatus>)
        ensures
            statuses_view(bad@) == bad_of(self@),
    {
        let mut bad: Vec<HostStatus> = Vec::new();
        let mut i: usize = 0;
        while i < self.entries.len()
            invariant
                i <= self.entries.len(),
                statuses_view(bad@) == bad_of(self@.take(i as int)),
            decreases self.entries.len() - i,
        {
            proof {
                let next = self@.take(i + 1);
                assert(next.drop_last() == self@.take(i as int));
            }
            if self.entries[i].code != 0 {
                let entry = HostStatus { host: self.entries[i].host.clone(), code: self.entries[i].code };
                bad.push(entry);
            }
            i += 1;
        }
        assert(self@.take(self.entries.len() as int) == self@);
        bad
    }

    /// The exit code of the whole run: 0 where every host answered with
    /// exit code 0, and 1 otherwise.
    pub fn exit_code(&self) -> (code: i32)
        ensures
            code == (if all_zero(self@) {
                0i32
            } else {
                1i32
            }),
    {
        let mut i: usize = 0;
        while i < self.entries.len()
            invariant
                i <= self.entries.len(),
                forall|k: int| 0 <= k < i ==> (#[trigger] self@[k]).1 == 0,
            decreases self.entries.len() - i,
        {
            if self.entries[i].code != 0 {
                assert(self@[i as int].1 != 0);
                return 1;
            }
            i += 1;
        }
        0
    }

    /// The summary printed after the last answer.
    pub fn summary(&self) -> (text: String)
        ensures
            text@ == summary_of(self@),
    {
        let bad = self.bad_hosts();
        let ghost bad_view = statuses_view(bad@);
        proof {
            lemma_bad_of(self@);
        }
        let mut text = String::new();
        push_decimal(&mut text, self.entries.len() as u64);
        text.append(" hosts in total, ");
        push_decimal(&mut text, (self.entries.len() - bad.len()) as u64);
        text.append(" are okay.\n");
        if bad.len() > 0 {
            text.append("There is something wrong with these hosts:\n");
            let ghost head = text@;
            let mut i: usize = 0;
            while i < bad.len()
                invariant
                    i <= bad.len(),
                    bad_view == statuses_view(bad@),
                    text@ == head + host_lines(bad_view.take(i as int)),
                decreases bad.len() - i,
            {
                proof {
                    let next = bad_view.take(i + 1);
                    assert(next.drop_last() == bad_view.take(i as int));
                }
                text.append(bad[i].host.as_str());
                text.append(": ");
                push_signed_decimal(&mut text, bad[i].code as i64);
                text.append("\n");
                i += 1;
            }
            assert(bad_view.take(bad.len() as int) == bad_view);
        }
        text
    }
}

} // verus!
