//! The streaming client that reads the body chunk by chunk, each chunk taken
//! for one line: where its request goes, how a chunk is read, and where a
//! line is printed.

use vstd::prelude::*;
use vstd::string::StringExecFns;
use vstd::utf8::encode_utf8;
use crate::result::Seconds;
use crate::text::{
    all_digits, chars_of, decimal, is_digit, join, join_text, lemma_number_grows, number,
    push_decimal, split, split_text, string_of, views,
};

verus! {

/// One line of a host's answer.
#[derive(Debug)]
pub struct It {
    pub host: String,
    pub fd: i8,
    pub line: String,
}

/// What is asked of which host.
#[derive(Debug)]
pub struct Opts {
    pub host: String,
    pub port: u32,
    pub command: String,
    pub arguments: Vec<String>,
}

/// One parameter of a query.
#[derive(Debug)]
pub struct QueryPair {
    pub name: String,
    pub value: String,
}

/// The parameters over views.
pub open spec fn pairs_view(pairs: Seq<QueryPair>) -> Seq<(Seq<char>, Seq<char>)> {
    Seq::new(pairs.len(), |i: int| (pairs[i].name@, pairs[i].value@))
}

/// Whether a byte stands for itself in a form-encoded text: a letter or a
/// digit of ASCII, or one of `*`, `-`, `.` and `_`.
pub open spec fn stands_for_itself(b: u8) -> bool {
    b == 42 || b == 45 || b == 46 || 48 <= b <= 57 || 65 <= b <= 90 || b == 95 || 97 <= b <= 122
}

/// The hexadecimal digit of `n`, in upper case.
pub open spec fn hex_digit(n: int) -> char {
    if n < 10 {
        (48 + n) as u8 as char
    } else {
        (55 + n) as u8 as char
    }
}

/// One byte, form-encoded: itself, a plus sign for a blank, or a percent
/// sign and its two hexadecimal digits.
pub open spec fn escape_byte(b: u8) -> Seq<char> {
    if stands_for_itself(b) {
        seq![b as char]
    } else if b == 32 {
        seq!['+']
    } else {
        seq!['%', hex_digit(b as int / 16), hex_digit(b as int % 16)]
    }
}

/// A string of bytes, form-encoded byte by byte.
pub open spec fn escape_bytes(bytes: Seq<u8>) -> Seq<char>
    decreases bytes.len(),
{
    if bytes.len() == 0 {
        Seq::<char>::empty()
    } else {
        escape_bytes(bytes.drop_last()) + escape_byte(bytes.last())
    }
}

/// A text, form-encoded: the bytes of its UTF-8 form, each one encoded.
pub open spec fn escape(text: Seq<char>) -> Seq<char> {
    escape_bytes(encode_utf8(text))
}

/// The parameters as one `application/x-www-form-urlencoded` text: each as
/// name, `=` and value, with `&` between each two.
pub open spec fn form_encoded(pairs: Seq<(Seq<char>, Seq<char>)>) -> Seq<char>
    decreases pairs.len(),
{
    if pairs.len() == 0 {
        Seq::<char>::empty()
    } else {
        let last = escape(pairs.last().0) + seq!['='] + escape(pairs.last().1);
        if pairs.len() == 1 {
            last
        } else {
            form_encoded(pairs.drop_last()) + seq!['&'] + last
        }
    }
}

/// Serializes the parameters with `form_urlencoded::Serializer` of the url
/// crate: `append_pair` for each, in order, and `finish`. Trusted: the text
/// is the one that the crate's source builds, byte by byte as stated above.
#[verifier::external_body]
fn form_encode(pairs: &Vec<QueryPair>) -> (out: String)
    ensures
        out@ == form_encoded(pairs_view(pairs@)),
{
    let mut serializer = url::form_urlencoded::Serializer::new(String::new());
    for pair in pairs.iter() {
        serializer.append_pair(pair.name.as_str(), pair.value.as_str());
    }
    serializer.finish()
}

/// The parameters of a streamed request: `chunked` set to 1, and the
/// arguments, where there are any, with one blank between each two.
pub open spec fn query_of(arguments: Seq<Seq<char>>) -> Seq<(Seq<char>, Seq<char>)> {
    if arguments.len() == 0 {
        seq![("chunked"@, "1"@)]
    } else {
        seq![("chunked"@, "1"@), ("argument"@, join(arguments, " "@))]
    }
}

/// The address of a streamed request, query included.
pub open spec fn stream_url(
    host: Seq<char>,
    port: u32,
    command: Seq<char>,
    arguments: Seq<Seq<char>>,
) -> Seq<char> {
    "http://"@ + host + ":"@ + decimal(port as nat) + "/command/"@ + command + "?"@ + form_encoded(
        query_of(arguments),
    )
}

impl Opts {
    /// The address that the request goes to.
    pub fn build_url(&self) -> (url: String)
        ensures
            url@ == stream_url(self.host@, self.port, self.command@, views(self.arguments@)),
    {
        let mut pairs: Vec<QueryPair> = Vec::new();
        pairs.push(QueryPair { name: String::from_str("chunked"), value: String::from_str("1") });
        if self.arguments.len() > 0 {
            pairs.push(
                QueryPair {
                    name: String::from_str("argument"),
                    value: join_text(&self.arguments, " "),
                },
            );
        }
        assert(pairs_view(pairs@) == query_of(views(self.arguments@)));
        let query = form_encode(&pairs);
        let mut url = String::from_str("http://");
        url.append(self.host.as_str());
        url.append(":");
        push_decimal(&mut url, self.port as u64);
        url.append("/command/");
        url.append(self.command.as_str());
        url.append("?");
        url.append(query.as_str());
        url
    }
}

/// One transfer, ready to be performed.
#[derive(Debug)]
pub struct Transfer {
    pub host: String,
    pub url: String,
    pub connect_timeout: Seconds,
}

/// The transfer that asks one host: its address, and three seconds to
/// connect. Every chunk that arrives is read with `parse_chunk` and handed on
/// under the host's name; a transfer that fails is reported with
/// `transfer_failed`.
pub fn rt_run(opts: &Opts) -> (transfer: Transfer)
    ensures
        transfer.host@ == opts.host@,
        transfer.url@ == stream_url(opts.host@, opts.port, opts.command@, views(opts.arguments@)),
        transfer.connect_timeout == (Seconds { secs: 3, nanos: 0 }),
{
    Transfer {
        host: opts.host.clone(),
        url: opts.build_url(),
        connect_timeout: Seconds { secs: 3, nanos: 0 },
    }
}

/// Whether `each` asks the hosts of the comma-separated list of `opts`, one
/// request per host and in the order of the list, each for the same port,
/// command and arguments.
pub open spec fn asks_each_host(each: Seq<Opts>, opts: Opts) -> bool {
    &&& each.len() == split(opts.host@, ',').len()
    &&& forall|i: int|
        0 <= i < each.len() ==> {
            &&& (#[trigger] each[i]).host@ == split(opts.host@, ',')[i]
            &&& each[i].port == opts.port
            &&& each[i].command@ == opts.command@
            &&& views(each[i].arguments@) == views(opts.arguments@)
        }
}

/// The requests that ask every host of a comma-separated list. The caller
/// performs them side by side, each as `rt_run` says.
pub fn run_parallel(opts: &Opts) -> (each: Vec<Opts>)
    ensures
        asks_each_host(each@, *opts),
{
    let hosts = split_text(opts.host.as_str(), ',');
    let mut each: Vec<Opts> = Vec::new();
    let mut i: usize = 0;
    while i < hosts.len()
        invariant
            i <= hosts.len(),
            views(hosts@) == split(opts.host@, ','),
            each@.len() == i,
            forall|k: int|
                0 <= k < i ==> {
                    &&& (#[trigger] each@[k]).host@ == hosts@[k]@
                    &&& each@[k].port == opts.port
                    &&& each@[k].command@ == opts.command@
                    &&& views(each@[k].arguments@) == views(opts.arguments@)
                },
        decreases hosts.len() - i,
    {
        let arguments = opts.arguments.clone();
        each.push(
            Opts {
                host: hosts[i].clone(),
                port: opts.port,
                command: opts.command.clone(),
                arguments,
            },
        );
        i += 1;
    }
    each
}

/// The first position from `at` on at which `"> "` stands.
pub open spec fn mark_from(s: Seq<char>, at: int) -> Option<int>
    decreases s.len() - at,
{
    if at < 0 || at + 1 >= s.len() {
        None
    } else if s[at] == '>' && s[at + 1] == ' ' {
        Some(at)
    } else {
        mark_from(s, at + 1)
    }
}

/// The value of digits with a sign.
pub open spec fn signed_value(negative: bool, digits: Seq<char>) -> Option<i8> {
    if digits.len() > 0 && all_digits(digits) {
        let n = number(digits) as int;
        if negative && n <= 128 {
            Some((-n) as i8)
        } else if !negative && n <= 127 {
            Some(n as i8)
        } else {
            None
        }
    } else {
        None
    }
}

/// The file descriptor that `text` writes: digits, with a sign before them
/// or none, within the range of eight bits.
pub open spec fn descriptor_of(text: Seq<char>) -> Option<i8> {
    if text.len() > 0 && text[0] == '-' {
        signed_value(true, text.drop_first())
    } else if text.len() > 0 && text[0] == '+' {
        signed_value(false, text.drop_first())
    } else {
        signed_value(false, text)
    }
}

/// What a chunk holds: the file descriptor before the first `"> "` and the
/// line behind it. There is nothing where the chunk has no `"> "`, or no
/// file descriptor before it.
pub open spec fn chunk_of(s: Seq<char>) -> Option<(i8, Seq<char>)> {
    match mark_from(s, 0) {
        None => None,
        Some(at) => match descriptor_of(s.take(at)) {
            None => None,
            Some(fd) => Some((fd, s.skip(at + 2))),
        },
    }
}

fn read_descriptor(t: &Vec<char>, to: usize) -> (r: Option<i8>)
    requires
        to <= t.len(),
    ensures
        r == descriptor_of(t@.take(to as int)),
{
    let ghost text = t@.take(to as int);
    let negative = to > 0 && t[0] == '-';
    let from: usize = if to > 0 && (t[0] == '-' || t[0] == '+') {
        1
    } else {
        0
    };
    let ghost digits = text.skip(from as int);
    proof {
        if from == 0 {
            assert(text.skip(0) == text);
        }
    }
    if from == to {
        return None;
    }
    let mut value: u32 = 0;
    let mut i: usize = from;
    while i < to
        invariant
            from <= i <= to <= t.len(),
            from < to,
            text == t@.take(to as int),
            digits == text.skip(from as int),
            descriptor_of(text) == signed_value(negative, digits),
            all_digits(digits.take(i - from)),
            value == number(digits.take(i - from)),
            value <= 128,
        decreases to - i,
    {
        let c = t[i];
        if (c as u32) < 48 || (c as u32) > 57 {
            assert(!is_digit(digits[i - from]));
            return None;
        }
        proof {
            let longer = digits.take(i + 1 - from);
            assert(longer.drop_last() == digits.take(i - from));
            assert(all_digits(longer)) by {
                assert forall|k: int| 0 <= k < longer.len() implies is_digit(
                    #[trigger] longer[k],
                ) by {}
            }
        }
        value = value * 10 + ((c as u32) - 48);
        i += 1;
        if value > 128 {
            proof {
                if all_digits(digits) {
                    lemma_number_grows(digits, i - from);
                }
            }
            return None;
        }
    }
    assert(digits.take(to - from) == digits);
    if negative {
        Some((0 - (value as i32)) as i8)
    } else if value <= 127 {
        Some(value as i8)
    } else {
        None
    }
}

/// Reads one chunk as one line.
pub fn parse_chunk(s: &str) -> (r: Option<(i8, String)>)
    ensures
        match r {
            Some(pair) => chunk_of(s@) == Some((pair.0, pair.1@)),
            None => chunk_of(s@) is None,
        },
{
    let t = chars_of(s);
    let mut at: usize = 0;
    while t.len() - at >= 2 && !(t[at] == '>' && t[at + 1] == ' ')
        invariant
            at <= t.len(),
            t@ == s@,
            mark_from(t@, 0) == mark_from(t@, at as int),
        decreases t.len() - at,
    {
        at += 1;
    }
    if t.len() - at < 2 {
        return None;
    }
    match read_descriptor(&t, at) {
        None => None,
        Some(fd) => {
            let line = string_of(&t, at + 2, t.len());
            Some((fd, line))
        },
    }
}

/// The line that a chunk is handed on as, under the host's name: what the
/// chunk holds, or the stand-in for an unfinished stream where it holds
/// nothing.
pub fn read_chunk(host: &str, chunk: &str) -> (it: It)
    ensures
        it.host@ == host@,
        match chunk_of(chunk@) {
            Some(pair) => it.fd == pair.0 && it.line@ == pair.1,
            None => it.fd == -1 && it.line@ == "UnfinishedCmd"@,
        },
{
    match parse_chunk(chunk) {
        Some(pair) => It { host: String::from_str(host), fd: pair.0, line: pair.1 },
        None => It { host: String::from_str(host), fd: -1, line: String::from_str("UnfinishedCmd") },
    }
}

/// What is done with a line of the stream.
#[derive(Clone, Copy, Debug, PartialEq, Eq, Structural)]
pub enum LineStep {
    /// Print it on standard output.
    Stdout,
    /// Print it on standard error.
    Stderr,
    /// It is the result: report it and stop.
    Envelope,
    /// It is none of these: print it on standard error and stop with
    /// exit code 2.
    Abort,
}

/// The exit code of a stream that was aborted.
pub const ABORTED: i32 = 2;

/// What is done with a line, by its file descriptor.
pub fn line_step(fd: i8) -> (step: LineStep)
    ensures
        step == (if fd == 0 {
            LineStep::Envelope
        } else if fd == 1 {
            LineStep::Stdout
        } else if fd == 2 {
            LineStep::Stderr
        } else {
            LineStep::Abort
        }),
{
    if fd == 0 {
        LineStep::Envelope
    } else if fd == 1 {
        LineStep::Stdout
    } else if fd == 2 {
        LineStep::Stderr
    } else {
        LineStep::Abort
    }
}

/// The line that stands in where the stream ends without a result.
pub fn unfinished() -> (it: It)
    ensures
        it.fd == -1,
        it.host@.len() == 0,
        it.line@ == "UnfinishedCmd"@,
{
    It { host: String::new(), fd: -1, line: String::from_str("UnfinishedCmd") }
}

/// The result line that reports a failed transfer for `host`.
pub fn transfer_failed(host: &str, message: &str) -> (it: It)
    ensures
        it.fd == 0,
        it.host@ == host@,
        it.line@ == "{\"error\": \""@ + message@ + "\"}"@,
{
    let mut line = String::from_str("{\"error\": \"");
    line.append(message);
    line.append("\"}");
    It { host: String::from_str(host), fd: 0, line }
}

} // verus!
