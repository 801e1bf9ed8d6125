//! Commands: a template with placeholders, one pattern per argument, and a
//! time limit. A command checks the arguments of a request and turns its
//! template into the program and the argument vector to run.

use vstd::prelude::*;
use vstd::string::StringExecFns;
use crate::pattern::{full_match, is_usable, matches_fully, shell_words, shlex_split, usable};
use crate::template::{fill, has_unbound, strip_quotes, substitute, unquote};
use crate::result::{CommandResult, Seconds};
use crate::supervisor::{Action, Event, Mode, Phase, Supervisor, Verdict, begins_with, transition};
use crate::text::{decimal, push_decimal, views};

pub use crate::config::{read_config, Catalog};
pub use crate::waker::RedarrowWaker;

verus! {

/// Why a command cannot be run with the arguments given.
#[derive(Debug)]
pub enum CommandError {
    /// The number of arguments is wrong, or one of them does not match its
    /// pattern. The text says which.
    IllegalArgument(String),
    /// The template cannot be cut into words.
    SplitFailed,
    /// A placeholder names an argument that was not given.
    UnboundPlaceholder,
}

/// What checking and expanding come to, over views.
pub enum Resolution {
    Launch { program: Seq<char>, argv: Seq<Seq<char>> },
    Illegal { detail: Seq<char> },
    SplitFailed,
    Unbound,
}

/// An argument passes where it is empty or matches its pattern as a whole.
pub open spec fn accepts(pattern: Seq<char>, argument: Seq<char>) -> bool {
    argument.len() == 0 || full_match(pattern, argument)
}

/// The first index from `from` on whose argument does not pass.
pub open spec fn first_rejected(patterns: Seq<Seq<char>>, arguments: Seq<Seq<char>>, from: int)
    -> Option<int>
    decreases patterns.len() - from,
{
    if from < 0 || from >= patterns.len() {
        None
    } else if !accepts(patterns[from], arguments[from]) {
        Some(from)
    } else {
        first_rejected(patterns, arguments, from + 1)
    }
}

/// The text that reports a wrong number of arguments.
pub open spec fn count_detail(got: nat, expected: nat) -> Seq<char> {
    "Got "@ + decimal(got) + " args ("@ + decimal(expected) + " expected)"@
}

/// Whether one of the words after the first holds a placeholder that `count`
/// arguments leave without a value.
pub open spec fn any_unbound(words: Seq<Seq<char>>, count: nat) -> bool {
    exists|k: int| 1 <= k < words.len() && has_unbound(#[trigger] words[k], count)
}

/// The argument vector: each word after the first with its placeholders
/// replaced and one layer of quotes dropped.
pub open spec fn expand(words: Seq<Seq<char>>, arguments: Seq<Seq<char>>) -> Seq<Seq<char>> {
    Seq::new(
        (words.len() - 1) as nat,
        |k: int| strip_quotes(substitute(words[k + 1], arguments)),
    )
}

/// What a command with the given patterns and template makes of `arguments`:
/// the count is checked first, the arguments next and in order, and only what
/// passed is expanded.
pub open spec fn resolve(patterns: Seq<Seq<char>>, template: Seq<char>, arguments: Seq<Seq<char>>)
    -> Resolution {
    if arguments.len() != patterns.len() {
        Resolution::Illegal { detail: count_detail(arguments.len(), patterns.len()) }
    } else {
        match first_rejected(patterns, arguments, 0) {
            Some(i) => Resolution::Illegal { detail: arguments[i] },
            None => match shlex_split(template) {
                None => Resolution::SplitFailed,
                Some(words) => if words.len() == 0 {
                    Resolution::Launch {
                        program: Seq::<char>::empty(),
                        argv: Seq::<Seq<char>>::empty(),
                    }
                } else if any_unbound(words, arguments.len()) {
                    Resolution::Unbound
                } else {
                    Resolution::Launch { program: words[0], argv: expand(words, arguments) }
                },
            },
        }
    }
}

/// The text that reports a refusal to the client.
pub open spec fn refusal_text(resolution: Resolution, name: Seq<char>) -> Seq<char> {
    match resolution {
        Resolution::Illegal { detail } => "Illegal Argument: "@ + detail,
        Resolution::SplitFailed => "Split command error for "@ + name,
        Resolution::Unbound => "Missing argument for a placeholder of "@ + name,
        Resolution::Launch { program, argv } => Seq::<char>::empty(),
    }
}

impl CommandError {
    /// The error over views, as a resolution.
    pub open spec fn as_resolution(&self) -> Resolution {
        match self {
            CommandError::IllegalArgument(detail) => Resolution::Illegal { detail: detail@ },
            CommandError::SplitFailed => Resolution::SplitFailed,
            CommandError::UnboundPlaceholder => Resolution::Unbound,
        }
    }

    /// The text that reports this error to the client, for the command
    /// called `name`.
    pub fn message(&self, name: &str) -> (text: String)
        ensures
            text@ == refusal_text(self.as_resolution(), name@),
    {
        match self {
            CommandError::IllegalArgument(detail) => {
                let mut text = String::from_str("Illegal Argument: ");
                text.append(detail.as_str());
                text
            },
            CommandError::SplitFailed => {
                let mut text = String::from_str("Split command error for ");
                text.append(name);
                text
            },
            CommandError::UnboundPlaceholder => {
                let mut text = String::from_str("Missing argument for a placeholder of ");
                text.append(name);
                text
            },
        }
    }
}

/// Where one argument at least does not pass, there is a first one.
pub proof fn lemma_first_rejected(
    patterns: Seq<Seq<char>>,
    arguments: Seq<Seq<char>>,
    from: int,
    i: int,
)
    requires
        0 <= from <= i < patterns.len(),
        !accepts(patterns[i], arguments[i]),
    ensures
        first_rejected(patterns, arguments, from) matches Some(j) && from <= j <= i && !accepts(
            patterns[j],
            arguments[j],
        ),
    decreases i - from,
{
    if accepts(patterns[from], arguments[from]) {
        lemma_first_rejected(patterns, arguments, from + 1, i);
    }
}

/// Whether the arguments are as many as the patterns and one of them does not
/// pass.
pub open spec fn some_rejected(patterns: Seq<Seq<char>>, arguments: Seq<Seq<char>>) -> bool {
    arguments.len() == patterns.len() && exists|i: int|
        0 <= i < patterns.len() && !accepts(#[trigger] patterns[i], arguments[i])
}

/// Whether `r` is the refusal that reports `text`.
pub open spec fn refuses_with(r: Result<Execution, CommandResult>, text: Seq<char>) -> bool {
    r matches Err(res) && res.is_err_shape() && res.error->0@ == text
}

/// Whether `r` is a refusal that reports an illegal argument.
pub open spec fn refuses_as_illegal(r: Result<Execution, CommandResult>) -> bool {
    r matches Err(res) && res.is_err_shape() && begins_with(res.error->0@, "Illegal Argument: "@)
}

/// One run of a command: what to start, and the supervisor of the child once
/// it is started. The caller starts the program as the leader of a new
/// session, with both outputs piped, so that a signal to its process group
/// reaches every descendant; a child that cannot be made one is not run.
#[derive(Debug)]
pub struct Execution {
    program: String,
    argv: Vec<String>,
    mode: Mode,
    supervisor: Supervisor,
}

impl Execution {
    /// The program to start.
    pub closed spec fn program_view(&self) -> Seq<char> {
        self.program@
    }

    /// The arguments to start it with.
    pub closed spec fn argv_view(&self) -> Seq<Seq<char>> {
        views(self.argv@)
    }

    /// How the output reaches the client.
    pub closed spec fn mode_of(&self) -> Mode {
        self.mode
    }

    /// Where the supervision stands.
    pub closed spec fn phase(&self) -> Phase {
        self.supervisor.phase()
    }

    /// The seconds that the child may run.
    pub closed spec fn limit(&self) -> u64 {
        self.supervisor.limit()
    }

    /// The program to start.
    pub fn program(&self) -> (r: &str)
        ensures
            r@ == self.program_view(),
    {
        self.program.as_str()
    }

    /// The arguments to start it with.
    pub fn argv(&self) -> (r: &Vec<String>)
        ensures
            views(r@) == self.argv_view(),
    {
        &self.argv
    }

    /// How the output reaches the client.
    pub fn mode(&self) -> (r: Mode)
        ensures
            r == self.mode_of(),
    {
        self.mode
    }

    /// The first action, once the child is started: wait for it as long as
    /// the time limit says.
    pub fn begin(&self) -> (action: Action)
        ensures
            action == (Action::Wait { seconds: self.limit() }),
    {
        self.supervisor.begin()
    }

    /// Takes the next event and says what to do.
    pub fn on_event(&mut self, event: Event) -> (action: Action)
        ensures
            (final(self).phase(), action) == transition(old(self).phase(), event),
            final(self).limit() == old(self).limit(),
            final(self).mode_of() == old(self).mode_of(),
            final(self).program_view() == old(self).program_view(),
            final(self).argv_view() == old(self).argv_view(),
    {
        self.supervisor.on_event(event)
    }

    /// The result of the run, from its verdict and what the caller measured.
    pub fn conclude(
        &self,
        verdict: Verdict,
        stdout: String,
        stderr: String,
        time_cost: Seconds,
        start_time: Seconds,
    ) -> (r: Result<CommandResult, String>)
        ensures
            match verdict {
                Verdict::Exited { code } => r matches Ok(res) && res.error is None
                    && res.exit_code == Some(code) && res.time_cost == Some(time_cost)
                    && res.start_time == Some(start_time) && (self.mode_of() == Mode::Buffered
                    ==> res.stdout == Some(stdout) && res.stderr == Some(stderr)) && (
                self.mode_of() == Mode::Streamed ==> res.stdout is None && res.stderr is None),
                Verdict::SignalFailed { .. } => r matches Err(message) && Some(message@)
                    == crate::supervisor::failure_text(verdict),
                _ => r matches Ok(res) && res.is_err_shape() && Some(res.error->0@)
                    == crate::supervisor::failure_text(verdict),
            },
    {
        verdict.conclude(self.mode, stdout, stderr, time_cost, start_time)
    }
}

/// A command over views.
pub struct CommandModel {
    pub name: Seq<char>,
    pub template: Seq<char>,
    pub patterns: Seq<Seq<char>>,
    pub limit: u64,
}

/// A configured command.
#[derive(Debug)]
pub struct Command {
    name: String,
    template: String,
    args: Vec<String>,
    time_limit: u64,
}

impl Command {
    #[verifier::type_invariant]
    spec fn well_formed(&self) -> bool {
        forall|i: int| 0 <= i < self.args@.len() ==> usable(#[trigger] self.args@[i]@)
    }

    /// The name under which the command is listed.
    pub closed spec fn name_view(&self) -> Seq<char> {
        self.name@
    }

    /// The template.
    pub closed spec fn template(&self) -> Seq<char> {
        self.template@
    }

    /// The patterns, one per argument.
    pub closed spec fn patterns(&self) -> Seq<Seq<char>> {
        views(self.args@)
    }

    /// The seconds after which a run is ended.
    pub closed spec fn limit(&self) -> u64 {
        self.time_limit
    }

    /// The command over views.
    pub open spec fn model(&self) -> CommandModel {
        CommandModel {
            name: self.name_view(),
            template: self.template(),
            patterns: self.patterns(),
            limit: self.limit(),
        }
    }

    /// A command made of its parts. There is none where one of the patterns
    /// cannot be used to check an argument.
    pub fn new(name: &str, template: &str, args: Vec<String>, time_limit: u64) -> (r: Option<Self>)
        ensures
            r is Some <==> (forall|i: int|
                0 <= i < args@.len() ==> usable(#[trigger] views(args@)[i])),
            r matches Some(c) ==> c.name_view() == name@ && c.template() == template@ && c.patterns()
                == views(args@) && c.limit() == time_limit,
    {
        let mut i: usize = 0;
        while i < args.len()
            invariant
                i <= args.len(),
                forall|k: int| 0 <= k < i ==> usable(#[trigger] args@[k]@),
            decreases args.len() - i,
        {
            if !is_usable(args[i].as_str()) {
                assert(!usable(views(args@)[i as int]));
                return None;
            }
            i += 1;
        }
        Some(
            Command {
                name: String::from_str(name),
                template: String::from_str(template),
                args,
                time_limit,
            },
        )
    }

    /// The name under which the command is listed.
    pub fn name(&self) -> (r: &str)
        ensures
            r@ == self.name_view(),
    {
        self.name.as_str()
    }

    /// The seconds after which a run is ended.
    pub fn time_limit(&self) -> (r: u64)
        ensures
            r == self.limit(),
    {
        self.time_limit
    }

    /// Checks `arguments` against the patterns and expands the template into
    /// the program and its argument vector. No shell is involved.
    pub fn get_command(&self, arguments: Vec<String>) -> (r: Result<
        (String, Vec<String>),
        CommandError,
    >)
        ensures
            match resolve(self.patterns(), self.template(), views(arguments@)) {
                Resolution::Launch { program, argv } => r matches Ok(pair) && pair.0@ == program
                    && views(pair.1@) == argv,
                Resolution::Illegal { detail } => r matches Err(CommandError::IllegalArgument(d))
                    && d@ == detail,
                Resolution::SplitFailed => r matches Err(CommandError::SplitFailed),
                Resolution::Unbound => r matches Err(CommandError::UnboundPlaceholder),
            },
    {
        proof {
            use_type_invariant(self);
        }
        let ghost given = views(arguments@);
        let ghost patterns = self.patterns();
        if arguments.len() != self.args.len() {
            let mut detail = String::new();
            detail.append("Got ");
            push_decimal(&mut detail, arguments.len() as u64);
            detail.append(" args (");
            push_decimal(&mut detail, self.args.len() as u64);
            detail.append(" expected)");
            return Err(CommandError::IllegalArgument(detail));
        }
        let mut i: usize = 0;
        while i < arguments.len()
            invariant
                i <= arguments.len(),
                arguments.len() == self.args.len(),
                given == views(arguments@),
                patterns == views(self.args@),
                forall|k: int| 0 <= k < self.args@.len() ==> usable(#[trigger] self.args@[k]@),
                first_rejected(patterns, given, 0) == first_rejected(patterns, given, i as int),
            decreases arguments.len() - i,
        {
            let argument = arguments[i].as_str();
            if !argument.is_empty() && !matches_fully(self.args[i].as_str(), argument) {
                return Err(CommandError::IllegalArgument(arguments[i].clone()));
            }
            i += 1;
        }
        match shell_words(self.template.as_str()) {
            None => Err(CommandError::SplitFailed),
            Some(words) => {
                if words.len() == 0 {
                    let argv: Vec<String> = Vec::new();
                    return Ok((String::new(), argv));
                }
                let ghost w = views(words@);
                let mut argv: Vec<String> = Vec::new();
                let mut k: usize = 1;
                while k < words.len()
                    invariant
                        1 <= k <= words.len(),
                        w == views(words@),
                        given == views(arguments@),
                        given.len() == patterns.len(),
                        patterns == self.patterns(),
                        first_rejected(patterns, given, 0) is None,
                        shlex_split(self.template()) == Some(w),
                        forall|j: int| 1 <= j < k ==> !has_unbound(#[trigger] w[j], given.len()),
                        views(argv@) == Seq::new(
                            (k - 1) as nat,
                            |j: int| strip_quotes(substitute(w[j + 1], given)),
                        ),
                    decreases words.len() - k,
                {
                    match fill(words[k].as_str(), &arguments) {
                        None => {
                            assert(has_unbound(w[k as int], given.len()));
                            return Err(CommandError::UnboundPlaceholder);
                        },
                        Some(filled) => {
                            let ghost before = views(argv@);
                            let word = unquote(&filled);
                            argv.push(word);
                            assert(views(argv@) == before.push(word@));
                        },
                    }
                    k += 1;
                }
                Ok((words[0].clone(), argv))
            },
        }
    }

    fn start(&self, arguments: Vec<String>, mode: Mode) -> (r: Result<Execution, CommandResult>)
        ensures
            match resolve(self.patterns(), self.template(), views(arguments@)) {
                Resolution::Launch { program, argv } => r matches Ok(run) && run.program_view()
                    == program && run.argv_view() == argv && run.mode_of() == mode && run.phase()
                    == Phase::Running && run.limit() == self.limit(),
                refused => refuses_with(r, refusal_text(refused, self.name_view())),
            },
            views(arguments@).len() != self.patterns().len() ==> refuses_with(
                r,
                "Illegal Argument: "@ + count_detail(
                    views(arguments@).len(),
                    self.patterns().len(),
                ),
            ),
            some_rejected(self.patterns(), views(arguments@)) ==> refuses_as_illegal(r),
    {
        let ghost given = views(arguments@);
        proof {
            if some_rejected(self.patterns(), given) {
                let i = choose|i: int|
                    0 <= i < self.patterns().len() && !accepts(
                        #[trigger] self.patterns()[i],
                        given[i],
                    );
                lemma_first_rejected(self.patterns(), given, 0, i);
                let j = first_rejected(self.patterns(), given, 0)->0;
                let text = "Illegal Argument: "@ + given[j];
                assert(text.take("Illegal Argument: "@.len() as int) == "Illegal Argument: "@);
            }
        }
        match self.get_command(arguments) {
            Ok(pair) => {
                let (program, argv) = pair;
                Ok(Execution { program, argv, mode, supervisor: Supervisor::new(self.time_limit) })
            },
            Err(error) => Err(CommandResult::err(error.message(self.name.as_str()))),
        }
    }

    /// Prepares a run whose output is captured and returned with the
    /// result. The arguments are checked first: where their number is wrong,
    /// or one of them does not match its pattern, the answer is the failure
    /// to report, and nothing may be started. Only an `Execution` says what
    /// to start.
    pub fn execute(&self, arguments: Vec<String>) -> (r: Result<Execution, CommandResult>)
        ensures
            match resolve(self.patterns(), self.template(), views(arguments@)) {
                Resolution::Launch { program, argv } => r matches Ok(run) && run.program_view()
                    == program && run.argv_view() == argv && run.mode_of() == Mode::Buffered
                    && run.phase() == Phase::Running && run.limit() == self.limit(),
                refused => refuses_with(r, refusal_text(refused, self.name_view())),
            },
            views(arguments@).len() != self.patterns().len() ==> refuses_with(
                r,
                "Illegal Argument: "@ + count_detail(
                    views(arguments@).len(),
                    self.patterns().len(),
                ),
            ),
            some_rejected(self.patterns(), views(arguments@)) ==> refuses_as_illegal(r),
    {
        self.start(arguments, Mode::Buffered)
    }

    /// Prepares a run whose output is sent on line by line, each line as one
    /// frame. The arguments are checked as for a buffered run.
    pub fn execute_iter(&self, arguments: Vec<String>) -> (r: Result<Execution, CommandResult>)
        ensures
            match resolve(self.patterns(), self.template(), views(arguments@)) {
                Resolution::Launch { program, argv } => r matches Ok(run) && run.program_view()
                    == program && run.argv_view() == argv && run.mode_of() == Mode::Streamed
                    && run.phase() == Phase::Running && run.limit() == self.limit(),
                refused => refuses_with(r, refusal_text(refused, self.name_view())),
            },
            views(arguments@).len() != self.patterns().len() ==> refuses_with(
                r,
                "Illegal Argument: "@ + count_detail(
                    views(arguments@).len(),
                    self.patterns().len(),
                ),
            ),
            some_rejected(self.patterns(), views(arguments@)) ==> refuses_as_illegal(r),
    {
        self.start(arguments, Mode::Streamed)
    }

    /// The number of arguments that the command takes.
    pub fn arity(&self) -> (r: usize)
        ensures
            r == self.patterns().len(),
    {
        self.args.len()
    }
}

impl Clone for Command {
    fn clone(&self) -> (r: Self)
        ensures
            r.name_view() == self.name_view(),
            r.template() == self.template(),
            r.patterns() == self.patterns(),
            r.limit() == self.limit(),
    {
        proof {
            use_type_invariant(self);
        }
        let args = self.args.clone();
        Command {
            name: self.name.clone(),
            template: self.template.clone(),
            args,
            time_limit: self.time_limit,
        }
    }
}

} // verus!
