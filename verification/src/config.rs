//! The catalog of commands and its configuration format. A configuration is
//! an INI text; each named section that has an `exec` key is one command:
//!
//! ```text
//! [disk]
//! exec = /usr/bin/df ${0}
//! arg0 = ^[A-Za-z0-9/._-]+$
//! time_limit = 10
//! ```

use vstd::prelude::*;
use vstd::string::StringExecFns;
use ini::Ini;
use crate::dispatcher::{Command, CommandModel};
use crate::pattern::{is_usable, usable};
use crate::template::{names, placeholder_names};
use crate::text::{all_digits, chars_of, is_digit, lemma_number_grows, number, same_text, views};

verus! {

/// The seconds that a command may run where its section sets no limit.
pub const DEFAULT_TIME_LIMIT: u64 = 30;

#[verifier::external_type_specification]
#[verifier::external_body]
pub struct ExIniParseError(ini::ParseError);

/// One key of a section with its value.
#[derive(Debug)]
pub struct Property {
    pub key: String,
    pub value: String,
}

/// One section of a configuration: its name, none for what stands before the
/// first header, and its properties in the order of the text.
#[derive(Debug)]
pub struct Section {
    pub name: Option<String>,
    pub properties: Vec<Property>,
}

/// The properties over views.
pub open spec fn properties_view(properties: Seq<Property>) -> Seq<(Seq<char>, Seq<char>)> {
    Seq::new(properties.len(), |i: int| (properties[i].key@, properties[i].value@))
}

/// The name of a section over views.
pub open spec fn name_view(name: Option<String>) -> Option<Seq<char>> {
    match name {
        Some(n) => Some(n@),
        None => None,
    }
}

impl View for Section {
    type V = (Option<Seq<char>>, Seq<(Seq<char>, Seq<char>)>);

    open spec fn view(&self) -> (Option<Seq<char>>, Seq<(Seq<char>, Seq<char>)>) {
        (name_view(self.name), properties_view(self.properties@))
    }
}

/// The sections over views.
pub open spec fn sections_view(sections: Seq<Section>) -> Seq<
    (Option<Seq<char>>, Seq<(Seq<char>, Seq<char>)>),
> {
    Seq::new(sections.len(), |i: int| sections[i]@)
}

/// The sections that `Ini::load_from_str_noescape` of the rust-ini crate
/// reads from `text`, each with its properties, in the order of the text;
/// `None` where it reports a parse error. A backslash is an ordinary
/// character.
pub uninterp spec fn ini_sections(text: Seq<char>) -> Option<
    Seq<(Option<Seq<char>>, Seq<(Seq<char>, Seq<char>)>)>,
>;

/// Calls `Ini::load_from_str_noescape` and copies what `Ini::iter` and
/// `Properties::iter` hand out. Trusted: the sections depend on the text
/// alone.
#[verifier::external_body]
fn load_ini(text: &str) -> (r: Result<Vec<Section>, ini::ParseError>)
    ensures
        match r {
            Ok(sections) => ini_sections(text@) == Some(sections_view(sections@)),
            Err(_) => ini_sections(text@) is None,
        },
{
    let conf = Ini::load_from_str_noescape(text)?;
    Ok(
        conf.iter().map(
            |(name, props)|
                Section {
                    name: name.map(|n| n.to_string()),
                    properties: props.iter().map(
                        |(k, v)| Property { key: k.to_string(), value: v.to_string() },
                    ).collect(),
                },
        ).collect(),
    )
}

/// The words of a parse error of the rust-ini crate: line, column and
/// message. Nothing is claimed of them.
#[verifier::external_body]
fn describe(error: &ini::ParseError) -> String {
    error.to_string()
}

/// The first value stored under `key`.
pub open spec fn lookup(properties: Seq<(Seq<char>, Seq<char>)>, key: Seq<char>) -> Option<
    Seq<char>,
>
    decreases properties.len(),
{
    if properties.len() == 0 {
        None
    } else if properties[0].0 == key {
        Some(properties[0].1)
    } else {
        lookup(properties.drop_first(), key)
    }
}

/// `lookup` from a position on.
pub proof fn lemma_lookup_skip(properties: Seq<(Seq<char>, Seq<char>)>, key: Seq<char>, i: int)
    requires
        0 <= i <= properties.len(),
        forall|k: int| 0 <= k < i ==> (#[trigger] properties[k]).0 != key,
    ensures
        lookup(properties, key) == lookup(properties.skip(i), key),
    decreases i,
{
    if i == 0 {
        assert(properties.skip(0) == properties);
    } else {
        lemma_lookup_skip(properties, key, i - 1);
        let rest = properties.skip(i - 1);
        assert(rest.drop_first() == properties.skip(i));
    }
}

fn find<'a>(properties: &'a Vec<Property>, key: &str) -> (r: Option<&'a String>)
    ensures
        match r {
            Some(v) => lookup(properties_view(properties@), key@) == Some(v@),
            None => lookup(properties_view(properties@), key@) is None,
        },
{
    let ghost all = properties_view(properties@);
    let mut i: usize = 0;
    while i < properties.len()
        invariant
            i <= properties.len(),
            all == properties_view(properties@),
            forall|k: int| 0 <= k < i ==> (#[trigger] all[k]).0 != key@,
        decreases properties.len() - i,
    {
        if same_text(properties[i].key.as_str(), key) {
            proof {
                lemma_lookup_skip(all, key@, i as int);
            }
            return Some(&properties[i].value);
        }
        i += 1;
    }
    proof {
        lemma_lookup_skip(all, key@, all.len() as int);
    }
    None
}

/// `names` without repeats: each name where it stands first.
pub open spec fn distinct(names: Seq<Seq<char>>) -> Seq<Seq<char>>
    decreases names.len(),
{
    if names.len() == 0 {
        Seq::<Seq<char>>::empty()
    } else {
        let before = distinct(names.drop_last());
        if before.contains(names.last()) {
            before
        } else {
            before.push(names.last())
        }
    }
}

fn holds(list: &Vec<String>, name: &str) -> (r: bool)
    ensures
        r == views(list@).contains(name@),
{
    let mut i: usize = 0;
    while i < list.len()
        invariant
            i <= list.len(),
            forall|k: int| 0 <= k < i ==> views(list@)[k] != name@,
        decreases list.len() - i,
    {
        if same_text(list[i].as_str(), name) {
            assert(views(list@)[i as int] == name@);
            return true;
        }
        i += 1;
    }
    false
}

fn without_repeats(list: Vec<String>) -> (out: Vec<String>)
    ensures
        views(out@) == distinct(views(list@)),
{
    let mut out: Vec<String> = Vec::new();
    let mut i: usize = 0;
    while i < list.len()
        invariant
            i <= list.len(),
            views(out@) == distinct(views(list@).take(i as int)),
        decreases list.len() - i,
    {
        proof {
            let next = views(list@).take(i + 1);
            assert(next.drop_last() == views(list@).take(i as int));
        }
        if !holds(&out, list[i].as_str()) {
            out.push(list[i].clone());
        }
        i += 1;
    }
    assert(views(list@).take(list.len() as int) == views(list@));
    out
}

/// The number that a string of digits writes, where it is not empty and 64
/// bits hold the number.
pub open spec fn unsigned_value(digits: Seq<char>) -> Option<u64> {
    if digits.len() > 0 && all_digits(digits) && number(digits) <= u64::MAX {
        Some(number(digits) as u64)
    } else {
        None
    }
}

/// The number that `text` writes as a time limit: digits, with a plus sign
/// before them or none.
pub open spec fn limit_value(text: Seq<char>) -> Option<u64> {
    if text.len() > 0 && text[0] == '+' {
        unsigned_value(text.drop_first())
    } else {
        unsigned_value(text)
    }
}

/// Reads a time limit.
pub fn parse_limit(text: &str) -> (r: Option<u64>)
    ensures
        r == limit_value(text@),
{
    let t = chars_of(text);
    let from: usize = if t.len() > 0 && t[0] == '+' {
        1
    } else {
        0
    };
    let ghost digits = t@.skip(from as int);
    proof {
        if from == 0 {
            assert(t@.skip(0) == text@);
        }
    }
    if from == t.len() {
        return None;
    }
    let mut value: u64 = 0;
    let mut i: usize = from;
    while i < t.len()
        invariant
            from <= i <= t.len(),
            from < t.len(),
            digits == t@.skip(from as int),
            limit_value(text@) == unsigned_value(digits),
            forall|k: int| 0 <= k < i - from ==> is_digit(#[trigger] digits[k]),
            value == number(digits.take(i - from)),
        decreases t.len() - i,
    {
        let c = t[i];
        if (c as u32) < 48 || (c as u32) > 57 {
            assert(!is_digit(digits[i - from]));
            return None;
        }
        let d: u64 = ((c as u32) - 48) as u64;
        proof {
            let longer = digits.take(i + 1 - from);
            assert(longer.drop_last() == digits.take(i - from));
        }
        if value > (u64::MAX - d) / 10 {
            proof {
                if all_digits(digits) {
                    lemma_number_grows(digits, i + 1 - from);
                }
            }
            return None;
        }
        value = value * 10 + d;
        i += 1;
    }
    assert(digits.take(t.len() - from) == digits);
    Some(value)
}

/// What the patterns of a section come to.
pub enum Gathered {
    /// A placeholder has no key of its own.
    Missing { key: Seq<char> },
    /// A pattern cannot be used.
    Unusable,
    /// The patterns, one per placeholder.
    Patterns { patterns: Seq<Seq<char>> },
}

/// The key under which the pattern of a placeholder stands.
pub open spec fn argument_key(digits: Seq<char>) -> Seq<char> {
    "arg"@ + digits
}

/// The patterns of the placeholders `keys[from..]`, looked up in order. The
/// first placeholder without a key, or with a pattern that cannot be used,
/// decides.
pub open spec fn gather(properties: Seq<(Seq<char>, Seq<char>)>, keys: Seq<Seq<char>>, from: int)
    -> Gathered
    decreases keys.len() - from,
{
    if from < 0 || from >= keys.len() {
        Gathered::Patterns { patterns: Seq::<Seq<char>>::empty() }
    } else {
        match lookup(properties, argument_key(keys[from])) {
            None => Gathered::Missing { key: argument_key(keys[from]) },
            Some(pattern) => if !usable(pattern) {
                Gathered::Unusable
            } else {
                after(seq![pattern], gather(properties, keys, from + 1))
            },
        }
    }
}

/// `rest` with `done` before its patterns.
pub open spec fn after(done: Seq<Seq<char>>, rest: Gathered) -> Gathered {
    match rest {
        Gathered::Patterns { patterns } => Gathered::Patterns { patterns: done + patterns },
        other => other,
    }
}

/// What becomes of one section.
pub enum Plan {
    /// It has no name, or no `exec`, or an empty one: it is passed over.
    Skip,
    /// Its `exec` holds a pipe: it is passed over, with a warning.
    SkipPipe { section: Seq<char> },
    /// One of its patterns cannot be used: it is passed over, with a warning.
    SkipPattern { section: Seq<char> },
    /// A placeholder has no key: the load fails.
    MissingArgument { key: Seq<char>, section: Seq<char> },
    /// The time limit is no number: the load fails.
    BadTimeLimit { section: Seq<char> },
    /// It is a command.
    Load { command: CommandModel },
}

/// What becomes of a section with a name and a template.
pub open spec fn plan_command(
    name: Seq<char>,
    template: Seq<char>,
    properties: Seq<(Seq<char>, Seq<char>)>,
) -> Plan {
    if template.len() == 0 {
        Plan::Skip
    } else if template.contains('|') {
        Plan::SkipPipe { section: name }
    } else {
        match gather(properties, distinct(names(template)), 0) {
            Gathered::Missing { key } => Plan::MissingArgument { key, section: name },
            Gathered::Unusable => Plan::SkipPattern { section: name },
            Gathered::Patterns { patterns } => match lookup(properties, "time_limit"@) {
                None => Plan::Load {
                    command: CommandModel { name, template, patterns, limit: DEFAULT_TIME_LIMIT },
                },
                Some(text) => match limit_value(text) {
                    None => Plan::BadTimeLimit { section: name },
                    Some(limit) => Plan::Load {
                        command: CommandModel { name, template, patterns, limit },
                    },
                },
            },
        }
    }
}

/// What becomes of one section.
pub open spec fn plan_of(section: (Option<Seq<char>>, Seq<(Seq<char>, Seq<char>)>)) -> Plan {
    match section.0 {
        None => Plan::Skip,
        Some(name) => match lookup(section.1, "exec"@) {
            None => Plan::Skip,
            Some(template) => plan_command(name, template, section.1),
        },
    }
}

/// Why a configuration cannot be loaded.
#[derive(Debug)]
pub enum ConfigError {
    /// The text is no INI text. The words are the parser's.
    Syntax(String),
    /// A placeholder of `section` has no key `key`.
    MissingArgument { key: String, section: String },
    /// The time limit of `section` is no number.
    BadTimeLimit { section: String },
}

/// The text that reports why a configuration cannot be loaded.
pub open spec fn error_text(error: ConfigError) -> Seq<char> {
    match error {
        ConfigError::Syntax(words) => words@,
        ConfigError::MissingArgument { key, section } => key@ + " not found for "@ + section@,
        ConfigError::BadTimeLimit { section } => "invalid time_limit for "@ + section@,
    }
}

impl ConfigError {
    /// The text that reports this error.
    pub fn message(&self) -> (text: String)
        ensures
            text@ == error_text(*self),
    {
        match self {
            ConfigError::Syntax(words) => words.clone(),
            ConfigError::MissingArgument { key, section } => {
                let mut text = key.clone();
                text.append(" not found for ");
                text.append(section.as_str());
                text
            },
            ConfigError::BadTimeLimit { section } => {
                let mut text = String::from_str("invalid time_limit for ");
                text.append(section.as_str());
                text
            },
        }
    }
}

/// What loading one section gave.
#[derive(Debug)]
pub enum Loaded {
    Command(Command),
    Skipped,
    PipeIgnored,
    PatternIgnored,
}

fn has_pipe(template: &str) -> (r: bool)
    ensures
        r == template@.contains('|'),
{
    let chars = chars_of(template);
    let mut i: usize = 0;
    while i < chars.len()
        invariant
            i <= chars.len(),
            chars@ == template@,
            forall|k: int| 0 <= k < i ==> template@[k] != '|',
        decreases chars.len() - i,
    {
        if chars[i] == '|' {
            return true;
        }
        i += 1;
    }
    false
}

/// Whether `r` is what `plan` asks for.
pub open spec fn follows(r: Result<Loaded, ConfigError>, plan: Plan) -> bool {
    match plan {
        Plan::Skip => r matches Ok(Loaded::Skipped),
        Plan::SkipPipe { section } => r matches Ok(Loaded::PipeIgnored),
        Plan::SkipPattern { section } => r matches Ok(Loaded::PatternIgnored),
        Plan::MissingArgument { key, section } => r matches Err(
            ConfigError::MissingArgument { key: k, section: s },
        ) && k@ == key && s@ == section,
        Plan::BadTimeLimit { section } => r matches Err(ConfigError::BadTimeLimit { section: s })
            && s@ == section,
        Plan::Load { command } => r matches Ok(Loaded::Command(c)) && c.model() == command,
    }
}

/// Loads one section.
pub fn load_section(section: &Section) -> (r: Result<Loaded, ConfigError>)
    ensures
        follows(r, plan_of(section@)),
{
    let name = match &section.name {
        None => {
            return Ok(Loaded::Skipped);
        },
        Some(n) => n,
    };
    let template = match find(&section.properties, "exec") {
        None => {
            return Ok(Loaded::Skipped);
        },
        Some(t) => t,
    };
    if template.as_str().is_empty() {
        return Ok(Loaded::Skipped);
    }
    if has_pipe(template.as_str()) {
        return Ok(Loaded::PipeIgnored);
    }
    let ghost properties = properties_view(section.properties@);
    let keys = without_repeats(placeholder_names(template.as_str()));
    let ghost wanted = views(keys@);
    let mut patterns: Vec<String> = Vec::new();
    let mut i: usize = 0;
    while i < keys.len()
        invariant
            i <= keys.len(),
            wanted == views(keys@),
            properties == properties_view(section.properties@),
            gather(properties, wanted, 0) == after(
                views(patterns@),
                gather(properties, wanted, i as int),
            ),
            forall|k: int| 0 <= k < patterns@.len() ==> usable(#[trigger] views(patterns@)[k]),
            section.name == Some(*name),
            lookup(properties, "exec"@) == Some(template@),
            template@.len() > 0,
            !template@.contains('|'),
            wanted == distinct(names(template@)),
        decreases keys.len() - i,
    {
        let mut key = String::from_str("arg");
        key.append(keys[i].as_str());
        match find(&section.properties, key.as_str()) {
            None => {
                return Err(ConfigError::MissingArgument { key, section: name.clone() });
            },
            Some(pattern) => {
                if !is_usable(pattern.as_str()) {
                    return Ok(Loaded::PatternIgnored);
                }
                let ghost before = views(patterns@);
                patterns.push(pattern.clone());
                assert(views(patterns@) == before.push(pattern@));
                proof {
                    let rest = gather(properties, wanted, i + 1);
                    match rest {
                        Gathered::Patterns { patterns: more } => {
                            assert(before + (seq![pattern@] + more) == before.push(pattern@)
                                + more);
                        },
                        _ => {},
                    }
                }
            },
        }
        i += 1;
    }
    let limit = match find(&section.properties, "time_limit") {
        None => DEFAULT_TIME_LIMIT,
        Some(text) => match parse_limit(text.as_str()) {
            None => {
                return Err(ConfigError::BadTimeLimit { section: name.clone() });
            },
            Some(v) => v,
        },
    };
    match Command::new(name.as_str(), template.as_str(), patterns, limit) {
        Some(command) => Ok(Loaded::Command(command)),
        None => Ok(Loaded::PatternIgnored),
    }
}

/// Whether no name occurs twice.
pub open spec fn distinct_names(entries: Seq<CommandModel>) -> bool {
    forall|i: int, j: int|
        0 <= i < j < entries.len() ==> (#[trigger] entries[i]).name != (#[trigger] entries[j]).name
}

/// Whether a command is listed under `name`.
pub open spec fn has_name(entries: Seq<CommandModel>, name: Seq<char>) -> bool {
    exists|i: int| 0 <= i < entries.len() && (#[trigger] entries[i]).name == name
}

/// The position of the command listed under `name`.
pub open spec fn position(entries: Seq<CommandModel>, name: Seq<char>) -> int {
    choose|i: int| 0 <= i < entries.len() && (#[trigger] entries[i]).name == name
}

/// The entries after `command` was stored: a command of the same name is
/// replaced where it stands, a new one goes to the end.
pub open spec fn stored(entries: Seq<CommandModel>, command: CommandModel) -> Seq<CommandModel> {
    if has_name(entries, command.name) {
        entries.update(position(entries, command.name), command)
    } else {
        entries.push(command)
    }
}

/// The commands over views.
pub open spec fn models(commands: Seq<Command>) -> Seq<CommandModel> {
    Seq::new(commands.len(), |i: int| commands[i].model())
}

/// The commands known to a server, each under its name.
#[derive(Debug)]
pub struct Catalog {
    commands: Vec<Command>,
}

impl View for Catalog {
    type V = Seq<CommandModel>;

    closed spec fn view(&self) -> Seq<CommandModel> {
        models(self.commands@)
    }
}

impl Catalog {
    #[verifier::type_invariant]
    spec fn well_formed(&self) -> bool {
        distinct_names(self@)
    }

    /// A catalog without commands.
    pub fn new() -> (r: Self)
        ensures
            r@.len() == 0,
    {
        Catalog { commands: Vec::new() }
    }

    /// The number of commands.
    pub fn len(&self) -> (n: usize)
        ensures
            n == self@.len(),
    {
        self.commands.len()
    }

    /// The command listed under `name`.
    pub fn get(&self, name: &str) -> (r: Option<&Command>)
        ensures
            distinct_names(self@),
            match r {
                Some(c) => has_name(self@, name@) && c.model() == self@[position(self@, name@)]
                    && c.model().name == name@,
                None => !has_name(self@, name@),
            },
    {
        proof {
            use_type_invariant(self);
        }
        match index_of(&self.commands, name) {
            Some(i) => Some(&self.commands[i]),
            None => None,
        }
    }

    /// Lists `command` under its name. A command that was listed under the
    /// same name is replaced.
    pub fn insert(&mut self, command: Command)
        ensures
            distinct_names(old(self)@),
            distinct_names(final(self)@),
            final(self)@ == stored(old(self)@, command.model()),
    {
        proof {
            use_type_invariant(&*self);
        }
        let ghost before = self@;
        let ghost model = command.model();
        let mut taken = Catalog::new();
        core::mem::swap(self, &mut taken);
        let Catalog { commands } = taken;
        let mut commands = commands;
        match index_of(&commands, command.name()) {
            Some(i) => {
                commands.set(i, command);
                assert(distinct_names(models(commands@))) by {
                    assert forall|a: int, b: int|
                        0 <= a < b < models(commands@).len() implies (#[trigger] models(
                        commands@,
                    )[a]).name != (#[trigger] models(commands@)[b]).name by {
                        assert(before[a].name != before[b].name);
                    }
                }
            },
            None => {
                commands.push(command);
                assert(distinct_names(models(commands@))) by {
                    assert forall|a: int, b: int|
                        0 <= a < b < models(commands@).len() implies (#[trigger] models(
                        commands@,
                    )[a]).name != (#[trigger] models(commands@)[b]).name by {
                        if b < before.len() {
                            assert(before[a].name != before[b].name);
                        } else {
                            assert(before[a].name != model.name);
                        }
                    }
                }
            },
        }
        *self = Catalog { commands };
    }
}

fn index_of(commands: &Vec<Command>, name: &str) -> (r: Option<usize>)
    requires
        distinct_names(models(commands@)),
    ensures
        match r {
            Some(i) => has_name(models(commands@), name@) && i == position(
                models(commands@),
                name@,
            ) && i < commands@.len() && models(commands@)[i as int].name == name@,
            None => !has_name(models(commands@), name@),
        },
{
    let ghost all = models(commands@);
    let mut i: usize = 0;
    while i < commands.len()
        invariant
            i <= commands.len(),
            all == models(commands@),
            distinct_names(all),
            forall|k: int| 0 <= k < i ==> (#[trigger] all[k]).name != name@,
        decreases commands.len() - i,
    {
        if same_text(commands[i].name(), name) {
            assert(all[i as int].name == name@);
            return Some(i);
        }
        i += 1;
    }
    None
}

/// What a warning is about.
#[derive(Clone, Copy, Debug, PartialEq, Eq, Structural)]
pub enum NoticeKind {
    /// A command with a pipe was passed over: shell pipes are not supported.
    PipeIgnored,
    /// A command with a pattern that cannot be used was passed over.
    PatternIgnored,
}

/// A warning about one section.
#[derive(Debug)]
pub struct Notice {
    pub kind: NoticeKind,
    pub section: String,
}

/// The text of a warning.
pub open spec fn notice_text(kind: NoticeKind, section: Seq<char>) -> Seq<char> {
    match kind {
        NoticeKind::PipeIgnored => "ignored command with pipe: "@ + section,
        NoticeKind::PatternIgnored => "ignored command with unusable pattern: "@ + section,
    }
}

impl Notice {
    /// The text of the warning, for the log.
    pub fn message(&self) -> (text: String)
        ensures
            text@ == notice_text(self.kind, self.section@),
    {
        let mut text = match self.kind {
            NoticeKind::PipeIgnored => String::from_str("ignored command with pipe: "),
            NoticeKind::PatternIgnored => String::from_str(
                "ignored command with unusable pattern: ",
            ),
        };
        text.append(self.section.as_str());
        text
    }
}

/// The warnings over views.
pub open spec fn notices_view(notices: Seq<Notice>) -> Seq<(NoticeKind, Seq<char>)> {
    Seq::new(notices.len(), |i: int| (notices[i].kind, notices[i].section@))
}

/// Why a load failed, over views.
pub enum Failure {
    Syntax,
    MissingArgument { key: Seq<char>, section: Seq<char> },
    BadTimeLimit { section: Seq<char> },
}

/// How far a load has come.
pub struct Progress {
    /// The catalog as it stands.
    pub catalog: Seq<CommandModel>,
    /// The warnings so far.
    pub notices: Seq<(NoticeKind, Seq<char>)>,
    /// Why the load failed, if it did.
    pub failure: Option<Failure>,
}

/// A load that has not begun.
pub open spec fn fresh(catalog: Seq<CommandModel>) -> Progress {
    Progress { catalog, notices: Seq::<(NoticeKind, Seq<char>)>::empty(), failure: None }
}

/// The load after one more section.
pub open spec fn step(progress: Progress, plan: Plan) -> Progress {
    if progress.failure is Some {
        progress
    } else {
        match plan {
            Plan::Skip => progress,
            Plan::SkipPipe { section } => Progress {
                notices: progress.notices.push((NoticeKind::PipeIgnored, section)),
                ..progress
            },
            Plan::SkipPattern { section } => Progress {
                notices: progress.notices.push((NoticeKind::PatternIgnored, section)),
                ..progress
            },
            Plan::Load { command } => Progress {
                catalog: stored(progress.catalog, command),
                ..progress
            },
            Plan::MissingArgument { key, section } => Progress {
                failure: Some(Failure::MissingArgument { key, section }),
                ..progress
            },
            Plan::BadTimeLimit { section } => Progress {
                failure: Some(Failure::BadTimeLimit { section }),
                ..progress
            },
        }
    }
}

/// The load after the first `upto` sections, taken in order. A section that
/// fails ends the load; what was listed before it stays listed.
pub open spec fn load(
    progress: Progress,
    sections: Seq<(Option<Seq<char>>, Seq<(Seq<char>, Seq<char>)>)>,
    upto: int,
) -> Progress
    decreases upto,
{
    if upto <= 0 {
        progress
    } else {
        step(load(progress, sections, upto - 1), plan_of(sections[upto - 1]))
    }
}

/// The load after one more configuration text. A text that is no INI text
/// ends the load.
pub open spec fn load_text(progress: Progress, text: Seq<char>) -> Progress {
    if progress.failure is Some {
        progress
    } else {
        match ini_sections(text) {
            None => Progress { failure: Some(Failure::Syntax), ..progress },
            Some(sections) => load(progress, sections, sections.len() as int),
        }
    }
}

/// The load after the first `upto` texts, taken in order.
pub open spec fn load_texts(progress: Progress, texts: Seq<Seq<char>>, upto: int) -> Progress
    decreases upto,
{
    if upto <= 0 {
        progress
    } else {
        load_text(load_texts(progress, texts, upto - 1), texts[upto - 1])
    }
}

/// Whether `error` reports `failure`.
pub open spec fn reports(error: ConfigError, failure: Failure) -> bool {
    match failure {
        Failure::Syntax => error is Syntax,
        Failure::MissingArgument { key, section } => error matches ConfigError::MissingArgument {
            key: k,
            section: s,
        } && k@ == key && s@ == section,
        Failure::BadTimeLimit { section } => error matches ConfigError::BadTimeLimit {
            section: s,
        } && s@ == section,
    }
}

/// Whether `r` and the catalog are what loading `text` into `catalog` gives.
pub open spec fn loaded_from(
    text: Seq<char>,
    before: Seq<CommandModel>,
    r: Result<Vec<Notice>, ConfigError>,
    catalog: Seq<CommandModel>,
) -> bool {
    let end = load_text(fresh(before), text);
    catalog == end.catalog && match end.failure {
        Some(failure) => r matches Err(error) && reports(error, failure),
        None => r matches Ok(notices) && notices_view(notices@) == end.notices,
    }
}

/// Loads the commands of one configuration text into `catalog` and returns
/// the warnings. The sections are taken in the order of the text.
pub fn parse_config(text: &str, catalog: &mut Catalog) -> (r: Result<Vec<Notice>, ConfigError>)
    ensures
        loaded_from(text@, old(catalog)@, r, final(catalog)@),
{
    let sections = match load_ini(text) {
        Err(error) => {
            return Err(ConfigError::Syntax(describe(&error)));
        },
        Ok(sections) => sections,
    };
    let ghost all = sections_view(sections@);
    let ghost start = fresh(catalog@);
    let mut notices: Vec<Notice> = Vec::new();
    let mut i: usize = 0;
    assert(notices_view(notices@) == start.notices);
    while i < sections.len()
        invariant
            i <= sections.len(),
            all == sections_view(sections@),
            ini_sections(text@) == Some(all),
            start == fresh(old(catalog)@),
            load(start, all, i as int) == (Progress {
                catalog: catalog@,
                notices: notices_view(notices@),
                failure: None,
            }),
        decreases sections.len() - i,
    {
        match load_section(&sections[i]) {
            Err(error) => {
                proof {
                    lemma_failure_stays(start, all, i + 1, all.len() as int);
                }
                return Err(error);
            },
            Ok(Loaded::Command(command)) => {
                catalog.insert(command);
            },
            Ok(Loaded::Skipped) => {},
            Ok(Loaded::PipeIgnored) => {
                let ghost before = notices_view(notices@);
                let section = match &sections[i].name {
                    Some(n) => n.clone(),
                    None => String::new(),
                };
                notices.push(Notice { kind: NoticeKind::PipeIgnored, section });
                assert(notices_view(notices@) == before.push(
                    (NoticeKind::PipeIgnored, section@),
                ));
            },
            Ok(Loaded::PatternIgnored) => {
                let ghost before = notices_view(notices@);
                let section = match &sections[i].name {
                    Some(n) => n.clone(),
                    None => String::new(),
                };
                notices.push(Notice { kind: NoticeKind::PatternIgnored, section });
                assert(notices_view(notices@) == before.push(
                    (NoticeKind::PatternIgnored, section@),
                ));
            },
        }
        i += 1;
    }
    Ok(notices)
}

/// What holds of every command that a configuration gives: its template is
/// not empty and holds no pipe, it has one pattern for each placeholder of
/// its template, repeats counted once, and each pattern can be used.
pub open spec fn loadable(c: CommandModel) -> bool {
    &&& c.template.len() > 0
    &&& !c.template.contains('|')
    &&& c.patterns.len() == distinct(names(c.template)).len()
    &&& forall|i: int| 0 <= i < c.patterns.len() ==> usable(#[trigger] c.patterns[i])
}

/// Whether every command of a catalog is as a configuration gives them.
pub open spec fn all_loadable(catalog: Seq<CommandModel>) -> bool {
    forall|i: int| 0 <= i < catalog.len() ==> loadable(#[trigger] catalog[i])
}

/// The patterns gathered for a template are one per placeholder from `from`
/// on, and each can be used.
pub proof fn lemma_gathered(
    properties: Seq<(Seq<char>, Seq<char>)>,
    keys: Seq<Seq<char>>,
    from: int,
)
    requires
        0 <= from <= keys.len(),
    ensures
        gather(properties, keys, from) matches Gathered::Patterns { patterns } ==> patterns.len()
            == keys.len() - from && forall|i: int|
            0 <= i < patterns.len() ==> usable(#[trigger] patterns[i]),
    decreases keys.len() - from,
{
    if from < keys.len() {
        lemma_gathered(properties, keys, from + 1);
    }
}

/// A section that is planned as a command is planned as a loadable one.
pub proof fn lemma_plan_is_loadable(section: (Option<Seq<char>>, Seq<(Seq<char>, Seq<char>)>))
    ensures
        plan_of(section) matches Plan::Load { command } ==> loadable(command),
{
    match section.0 {
        None => {},
        Some(name) => match lookup(section.1, "exec"@) {
            None => {},
            Some(template) => {
                lemma_gathered(section.1, distinct(names(template)), 0);
            },
        },
    }
}

/// Storing a loadable command in a catalog of loadable commands gives one.
pub proof fn lemma_stored_loadable(catalog: Seq<CommandModel>, command: CommandModel)
    requires
        all_loadable(catalog),
        loadable(command),
    ensures
        all_loadable(stored(catalog, command)),
{
}

/// No load lists a command with a pipe, or without a pattern for one of its
/// placeholders, or with a pattern that cannot be used: a catalog of
/// loadable commands stays one through any load.
pub proof fn lemma_load_keeps_loadable(
    progress: Progress,
    sections: Seq<(Option<Seq<char>>, Seq<(Seq<char>, Seq<char>)>)>,
    upto: int,
)
    requires
        all_loadable(progress.catalog),
        upto <= sections.len(),
    ensures
        all_loadable(load(progress, sections, upto).catalog),
    decreases upto,
{
    if upto > 0 {
        lemma_load_keeps_loadable(progress, sections, upto - 1);
        lemma_plan_is_loadable(sections[upto - 1]);
    }
}

/// The same through any number of configuration texts.
pub proof fn lemma_texts_keep_loadable(progress: Progress, texts: Seq<Seq<char>>, upto: int)
    requires
        all_loadable(progress.catalog),
        upto <= texts.len(),
    ensures
        all_loadable(load_texts(progress, texts, upto).catalog),
    decreases upto,
{
    if upto > 0 {
        lemma_texts_keep_loadable(progress, texts, upto - 1);
        let before = load_texts(progress, texts, upto - 1);
        if before.failure is None {
            match ini_sections(texts[upto - 1]) {
                None => {},
                Some(sections) => {
                    lemma_load_keeps_loadable(before, sections, sections.len() as int);
                },
            }
        }
    }
}

/// A load that has failed stays as it is.
pub proof fn lemma_failure_stays(
    start: Progress,
    sections: Seq<(Option<Seq<char>>, Seq<(Seq<char>, Seq<char>)>)>,
    at: int,
    upto: int,
)
    requires
        0 <= at <= upto,
        load(start, sections, at).failure is Some,
    ensures
        load(start, sections, upto) == load(start, sections, at),
    decreases upto - at,
{
    if at < upto {
        lemma_failure_stays(start, sections, at, upto - 1);
    }
}

/// Loads the commands of several configuration texts, taken in order, into
/// one catalog. The first text that fails ends the load.
pub fn read_config(texts: &Vec<String>) -> (r: Result<(Catalog, Vec<Notice>), ConfigError>)
    ensures
        ({
            let end = load_texts(fresh(Seq::<CommandModel>::empty()), views(texts@), texts@.len() as int);
            match end.failure {
                Some(failure) => r matches Err(error) && reports(error, failure),
                None => r matches Ok(pair) && pair.0@ == end.catalog && notices_view(pair.1@)
                    == end.notices,
            }
        }),
        r matches Ok(pair) ==> all_loadable(pair.0@),
{
    proof {
        lemma_texts_keep_loadable(
            fresh(Seq::<CommandModel>::empty()),
            views(texts@),
            texts@.len() as int,
        );
    }
    let mut catalog = Catalog::new();
    let mut notices: Vec<Notice> = Vec::new();
    let ghost start = fresh(Seq::<CommandModel>::empty());
    let ghost all = views(texts@);
    let mut i: usize = 0;
    assert(catalog@ == Seq::<CommandModel>::empty());
    assert(notices_view(notices@) == start.notices);
    while i < texts.len()
        invariant
            i <= texts.len(),
            all == views(texts@),
            start == fresh(Seq::<CommandModel>::empty()),
            load_texts(start, all, i as int) == (Progress {
                catalog: catalog@,
                notices: notices_view(notices@),
                failure: None,
            }),
        decreases texts.len() - i,
    {
        let ghost so_far = load_texts(start, all, i as int);
        let ghost text = all[i as int];
        match parse_config(texts[i].as_str(), &mut catalog) {
            Err(error) => {
                proof {
                    lemma_load_from(so_far, text);
                    lemma_texts_failure_stays(start, all, i + 1, all.len() as int);
                }
                return Err(error);
            },
            Ok(mut more) => {
                proof {
                    lemma_load_from(so_far, text);
                }
                let ghost before = notices_view(notices@);
                let ghost added = notices_view(more@);
                notices.append(&mut more);
                assert(notices_view(notices@) == before + added);
            },
        }
        i += 1;
    }
    Ok((catalog, notices))
}

/// Warnings gathered before a load are kept in front of those of the load.
pub proof fn lemma_load_keeps_notices(
    progress: Progress,
    sections: Seq<(Option<Seq<char>>, Seq<(Seq<char>, Seq<char>)>)>,
    upto: int,
)
    requires
        progress.failure is None,
    ensures
        ({
            let plain = load(fresh(progress.catalog), sections, upto);
            let whole = load(progress, sections, upto);
            whole.catalog == plain.catalog && whole.failure == plain.failure && whole.notices
                == progress.notices + plain.notices
        }),
    decreases upto,
{
    if upto > 0 {
        lemma_load_keeps_notices(progress, sections, upto - 1);
    }
}

/// Loading one text into a load under way is loading it into the catalog as
/// it stands, the earlier warnings kept in front.
pub proof fn lemma_load_from(progress: Progress, text: Seq<char>)
    requires
        progress.failure is None,
    ensures
        ({
            let plain = load_text(fresh(progress.catalog), text);
            let whole = load_text(progress, text);
            whole.catalog == plain.catalog && whole.failure == plain.failure && whole.notices
                == progress.notices + plain.notices
        }),
{
    match ini_sections(text) {
        None => {},
        Some(sections) => {
            lemma_load_keeps_notices(progress, sections, sections.len() as int);
        },
    }
}

/// A load of texts that has failed stays as it is.
pub proof fn lemma_texts_failure_stays(start: Progress, texts: Seq<Seq<char>>, at: int, upto: int)
    requires
        0 <= at <= upto,
        load_texts(start, texts, at).failure is Some,
    ensures
        load_texts(start, texts, upto) == load_texts(start, texts, at),
    decreases upto - at,
{
    if at < upto {
        lemma_texts_failure_stays(start, texts, at, upto - 1);
    }
}

} // verus!
