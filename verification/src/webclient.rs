//! The client's side of a request: where it goes, what it asks, and how the
//! file descriptor of a streamed line is read.

use vstd::prelude::*;
use vstd::string::StringExecFns;
use crate::framer::{start, Deframer};
use crate::result::{CommandParams, Seconds};
use crate::text::{decimal, join, join_text, push_decimal, views};

verus! {

/// The port on which a server listens unless told otherwise.
pub const DEFAULT_PORT: u32 = 4205;

/// The version that the client names in its user agent.
pub const VERSION: &'static str = "0.8.0";

/// One request to one host.
#[derive(Debug)]
pub struct Client {
    host: String,
    port: u32,
    command: String,
    arguments: Vec<String>,
    user_agent: String,
    connect_timeout: Seconds,
}

/// One request, ready to be sent.
#[derive(Debug)]
pub struct Request {
    pub url: String,
    pub params: CommandParams,
    pub user_agent: String,
    pub connect_timeout: Seconds,
}

/// A streamed request, ready to be sent, and the decoder for its body.
#[derive(Debug)]
pub struct Realtime {
    pub request: Request,
    pub deframer: Deframer,
}

/// The address of a command on a host.
pub open spec fn command_url(host: Seq<char>, port: u32, command: Seq<char>) -> Seq<char> {
    "http://"@ + host + ":"@ + decimal(port as nat) + "/command/"@ + command
}

/// The value of the `argument` parameter: none for no arguments, otherwise
/// the arguments with one space between each two.
pub open spec fn argument_value(arguments: Seq<Seq<char>>) -> Option<Seq<char>> {
    if arguments.len() == 0 {
        None
    } else {
        Some(join(arguments, " "@))
    }
}

impl Client {
    pub closed spec fn host(&self) -> Seq<char> {
        self.host@
    }

    pub closed spec fn port(&self) -> u32 {
        self.port
    }

    pub closed spec fn command(&self) -> Seq<char> {
        self.command@
    }

    pub closed spec fn arguments(&self) -> Seq<Seq<char>> {
        views(self.arguments@)
    }

    pub closed spec fn agent(&self) -> Seq<char> {
        self.user_agent@
    }

    pub closed spec fn timeout(&self) -> Seconds {
        self.connect_timeout
    }

    /// A client with the default user agent and three seconds to connect.
    pub fn new(host: String, port: u32, command: String, arguments: Vec<String>) -> (r: Self)
        ensures
            r.host() == host@,
            r.port() == port,
            r.command() == command@,
            r.arguments() == views(arguments@),
            r.agent() == "Redarrow-webclient/"@ + VERSION@,
            r.timeout() == (Seconds { secs: 3, nanos: 0 }),
    {
        let mut user_agent = String::new();
        user_agent.append("Redarrow-webclient/");
        user_agent.append(VERSION);
        Client {
            host,
            port,
            command,
            arguments,
            user_agent,
            connect_timeout: Seconds { secs: 3, nanos: 0 },
        }
    }

    /// Names the client `ua`, followed by a slash and the version.
    pub fn set_user_agent(&mut self, ua: &str)
        ensures
            final(self).agent() == ua@ + "/"@ + VERSION@,
            final(self).host() == old(self).host(),
            final(self).port() == old(self).port(),
            final(self).command() == old(self).command(),
            final(self).arguments() == old(self).arguments(),
            final(self).timeout() == old(self).timeout(),
    {
        let mut user_agent = String::new();
        user_agent.append(ua);
        user_agent.append("/");
        user_agent.append(VERSION);
        self.user_agent = user_agent;
    }

    /// Sets the time allowed for connecting.
    pub fn set_connect_timeout(&mut self, timeout: Seconds)
        ensures
            final(self).timeout() == timeout,
            final(self).host() == old(self).host(),
            final(self).port() == old(self).port(),
            final(self).command() == old(self).command(),
            final(self).arguments() == old(self).arguments(),
            final(self).agent() == old(self).agent(),
    {
        self.connect_timeout = timeout;
    }

    /// The host that is asked.
    pub fn host_name(&self) -> (r: &str)
        ensures
            r@ == self.host(),
    {
        self.host.as_str()
    }

    /// The user agent sent with the request.
    pub fn user_agent(&self) -> (r: &str)
        ensures
            r@ == self.agent(),
    {
        self.user_agent.as_str()
    }

    /// The time allowed for connecting.
    pub fn connect_timeout(&self) -> (r: Seconds)
        ensures
            r == self.timeout(),
    {
        self.connect_timeout
    }

    /// The address that the request goes to.
    pub fn build_url(&self) -> (url: String)
        ensures
            url@ == command_url(self.host(), self.port(), self.command()),
    {
        let mut url = String::new();
        url.append("http://");
        url.append(self.host.as_str());
        url.append(":");
        push_decimal(&mut url, self.port as u64);
        url.append("/command/");
        url.append(self.command.as_str());
        url
    }

    /// The value of the `argument` parameter.
    pub fn get_arguments(&self) -> (r: Option<String>)
        ensures
            match r {
                Some(s) => argument_value(self.arguments()) == Some(s@),
                None => argument_value(self.arguments()) is None,
            },
    {
        if self.arguments.len() == 0 {
            None
        } else {
            Some(join_text(&self.arguments, " "))
        }
    }

    /// Whether `request` is the request of this client with `chunked` set as
    /// given.
    pub open spec fn asks(&self, request: Request, chunked: u8) -> bool {
        &&& request.url@ == command_url(self.host(), self.port(), self.command())
        &&& request.user_agent@ == self.agent()
        &&& request.connect_timeout == self.timeout()
        &&& request.params.chunked == Some(chunked)
        &&& request.params.format is None
        &&& match request.params.argument {
            Some(s) => argument_value(self.arguments()) == Some(s@),
            None => argument_value(self.arguments()) is None,
        }
    }

    fn request(&self, chunked: u8) -> (request: Request)
        ensures
            self.asks(request, chunked),
    {
        Request {
            url: self.build_url(),
            params: CommandParams {
                chunked: Some(chunked),
                argument: self.get_arguments(),
                format: None,
            },
            user_agent: self.user_agent.clone(),
            connect_timeout: self.connect_timeout,
        }
    }

    /// The request for one result at the end: `chunked` is 0. The caller
    /// sends it, waits for the whole body and reads the result from it.
    pub fn run_command(&self) -> (request: Request)
        ensures
            self.asks(request, 0),
    {
        self.request(0)
    }

    /// The request for the output line by line: `chunked` is 1. The caller
    /// sends it and feeds the body to the decoder chunk by chunk; it hands
    /// each line on as it is delivered and returns the result that ends the
    /// stream, or what the decoder reports at the end of a body without one.
    pub fn run_realtime(&self) -> (session: Realtime)
        ensures
            self.asks(session.request, 1),
            session.deframer@ == start(),
    {
        Realtime { request: self.request(1), deframer: Deframer::new() }
    }
}

/// The file descriptor that a line of the stream announces: the digit before
/// `"> "` where the line begins with `0`, `1` or `2` and those two
/// characters, and -1 for any other line.
pub open spec fn fd_of(line: Seq<u8>) -> int {
    if line.len() >= 3 && 48 <= line[0] <= 50 && line[1] == 62 && line[2] == 32 {
        line[0] - 48
    } else {
        -1
    }
}

/// Reads the file descriptor at the head of `s`.
pub fn parse_fd(s: &[u8]) -> (fd: i8)
    ensures
        fd == fd_of(s@),
{
    if s.len() < 3 {
        -1
    } else if s[1] != 62 || s[2] != 32 {
        -1
    } else if s[0] == 48 {
        0
    } else if s[0] == 49 {
        1
    } else if s[0] == 50 {
        2
    } else {
        -1
    }
}

} // verus!
