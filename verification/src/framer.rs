//! The framed line protocol of a streamed response. Every frame is one line:
//! the digit of a file descriptor, `"> "`, a payload without a newline, and a
//! newline. Descriptor 1 carries the child's standard output, 2 its standard
//! error, and 0 the result that ends the stream.

use vstd::prelude::*;
use vstd::string::StringExecFns;
use crate::result::CommandResult;
use crate::webclient::{fd_of, parse_fd};

verus! {

/// The byte that ends a frame.
pub const NEWLINE: u8 = 10;

/// One frame: a file descriptor and a payload.
pub struct FrameModel {
    pub fd: u8,
    pub payload: Seq<u8>,
}

/// What the reader of a stream is handed.
#[derive(Debug, Clone, PartialEq, Eq)]
pub enum Event {
    /// A line of the child's output, on descriptor 1 or 2.
    Output { fd: u8, line: Vec<u8> },
    /// The result, which ends the stream.
    Envelope { body: Vec<u8> },
    /// A line that names no descriptor, met before any line that names one.
    Unrecognized { line: Vec<u8> },
}

/// An event over views.
pub enum Item {
    Output { fd: u8, line: Seq<u8> },
    Envelope { body: Seq<u8> },
    Unrecognized { line: Seq<u8> },
}

impl View for Event {
    type V = Item;

    open spec fn view(&self) -> Item {
        match self {
            Event::Output { fd, line } => Item::Output { fd: *fd, line: line@ },
            Event::Envelope { body } => Item::Envelope { body: body@ },
            Event::Unrecognized { line } => Item::Unrecognized { line: line@ },
        }
    }
}

/// The views of a list of events.
pub open spec fn items(events: Seq<Event>) -> Seq<Item> {
    Seq::new(events.len(), |i: int| events[i]@)
}

/// A frame as the grammar has it: a descriptor from 0 to 2 and no newline in
/// the payload.
pub open spec fn valid_frame(f: FrameModel) -> bool {
    f.fd <= 2 && forall|i: int| 0 <= i < f.payload.len() ==> f.payload[i] != NEWLINE
}

/// The bytes of one frame.
pub open spec fn encode(f: FrameModel) -> Seq<u8> {
    seq![(48 + f.fd) as u8, 62u8, 32u8] + f.payload + seq![NEWLINE]
}

/// The bytes of a sequence of frames, one after the other.
pub open spec fn encode_all(frames: Seq<FrameModel>) -> Seq<u8>
    decreases frames.len(),
{
    if frames.len() == 0 {
        Seq::<u8>::empty()
    } else {
        encode(frames[0]) + encode_all(frames.drop_first())
    }
}

/// The event that a frame is delivered as.
pub open spec fn item_of(f: FrameModel) -> Item {
    if f.fd == 0 {
        Item::Envelope { body: f.payload }
    } else {
        Item::Output { fd: f.fd, line: f.payload }
    }
}

/// The events of a sequence of frames: all of them up to and including the
/// first result, and none after it.
pub open spec fn delivered(frames: Seq<FrameModel>) -> Seq<Item>
    decreases frames.len(),
{
    if frames.len() == 0 {
        Seq::<Item>::empty()
    } else if frames[0].fd == 0 {
        seq![item_of(frames[0])]
    } else {
        seq![item_of(frames[0])] + delivered(frames.drop_first())
    }
}

/// What a decoder remembers between two chunks.
pub struct Decoding {
    /// The bytes of the line that has not ended yet.
    pub pending: Seq<u8>,
    /// The descriptor of the last output line.
    pub last: Option<u8>,
    /// Whether the result has been delivered.
    pub finished: bool,
}

/// The state before the first byte.
pub open spec fn start() -> Decoding {
    Decoding { pending: Seq::<u8>::empty(), last: None, finished: false }
}

/// The event of one complete line. A line that names no descriptor continues
/// the output of the descriptor named last.
pub open spec fn classify(line: Seq<u8>, last: Option<u8>) -> Item {
    let fd = fd_of(line);
    if fd == 0 {
        Item::Envelope { body: line.skip(3) }
    } else if fd == 1 || fd == 2 {
        Item::Output { fd: fd as u8, line: line.skip(3) }
    } else {
        match last {
            Some(f) => Item::Output { fd: f, line: line },
            None => Item::Unrecognized { line: line },
        }
    }
}

/// The descriptor that sticks after an event.
pub open spec fn last_after(item: Item, last: Option<u8>) -> Option<u8> {
    match item {
        Item::Output { fd, line } => Some(fd),
        _ => last,
    }
}

/// The decoder after `input`, and the events that `input` completes. Bytes
/// are kept until a newline ends the line; the line is delivered as one
/// event; after the result nothing is read.
pub open spec fn absorb(s: Decoding, input: Seq<u8>) -> (Decoding, Seq<Item>)
    decreases input.len(),
{
    if input.len() == 0 {
        (s, Seq::<Item>::empty())
    } else {
        let (before, out) = absorb(s, input.drop_last());
        let b = input.last();
        if before.finished {
            (before, out)
        } else if b != NEWLINE {
            (Decoding { pending: before.pending.push(b), ..before }, out)
        } else {
            let item = classify(before.pending, before.last);
            (
                Decoding {
                    pending: Seq::<u8>::empty(),
                    last: last_after(item, before.last),
                    finished: item is Envelope,
                },
                out.push(item),
            )
        }
    }
}

/// The decoder after a list of chunks fed one by one, and all events in the
/// order of their delivery.
pub open spec fn absorb_chunks(s: Decoding, chunks: Seq<Seq<u8>>) -> (Decoding, Seq<Item>)
    decreases chunks.len(),
{
    if chunks.len() == 0 {
        (s, Seq::<Item>::empty())
    } else {
        let (before, out) = absorb_chunks(s, chunks.drop_last());
        let (after, more) = absorb(before, chunks.last());
        (after, out + more)
    }
}

/// The bytes of a list of chunks, one after the other.
pub open spec fn joined(chunks: Seq<Seq<u8>>) -> Seq<u8>
    decreases chunks.len(),
{
    if chunks.len() == 0 {
        Seq::<u8>::empty()
    } else {
        joined(chunks.drop_last()) + chunks.last()
    }
}

/// Reading `a` and `b` one after the other is reading them as one input.
pub proof fn lemma_absorb_concat(s: Decoding, a: Seq<u8>, b: Seq<u8>)
    ensures
        absorb(s, a + b) == (
            absorb(absorb(s, a).0, b).0,
            absorb(s, a).1 + absorb(absorb(s, a).0, b).1,
        ),
    decreases b.len(),
{
    if b.len() > 0 {
        lemma_absorb_concat(s, a, b.drop_last());
        assert((a + b).drop_last() == a + b.drop_last());
    }
}

/// However a stream is cut into chunks, the decoder ends in the same state
/// and delivers the same events.
pub proof fn lemma_chunking(s: Decoding, chunks: Seq<Seq<u8>>)
    ensures
        absorb_chunks(s, chunks) == absorb(s, joined(chunks)),
    decreases chunks.len(),
{
    if chunks.len() > 0 {
        lemma_chunking(s, chunks.drop_last());
        lemma_absorb_concat(s, joined(chunks.drop_last()), chunks.last());
    }
}

/// After the result the decoder reads nothing.
pub proof fn lemma_finished(s: Decoding, input: Seq<u8>)
    requires
        s.finished,
    ensures
        absorb(s, input) == (s, Seq::<Item>::empty()),
    decreases input.len(),
{
    if input.len() > 0 {
        lemma_finished(s, input.drop_last());
    }
}

/// Bytes without a newline only lengthen the pending line.
pub proof fn lemma_absorb_plain(s: Decoding, input: Seq<u8>)
    requires
        !s.finished,
        forall|i: int| 0 <= i < input.len() ==> input[i] != NEWLINE,
    ensures
        absorb(s, input) == (
            Decoding { pending: s.pending + input, ..s },
            Seq::<Item>::empty(),
        ),
    decreases input.len(),
{
    if input.len() > 0 {
        lemma_absorb_plain(s, input.drop_last());
        assert(s.pending + input == (s.pending + input.drop_last()).push(input.last()));
    }
}

/// A decoder between two lines reads one line, with the newline that ends
/// it, as one event: the event of the line.
pub proof fn lemma_absorb_line(s: Decoding, line: Seq<u8>)
    requires
        !s.finished,
        s.pending.len() == 0,
        forall|i: int| 0 <= i < line.len() ==> line[i] != NEWLINE,
    ensures
        absorb(s, line.push(NEWLINE)) == (
            Decoding {
                pending: Seq::<u8>::empty(),
                last: last_after(classify(line, s.last), s.last),
                finished: classify(line, s.last) is Envelope,
            },
            seq![classify(line, s.last)],
        ),
{
    assert(line.push(NEWLINE).drop_last() == line);
    lemma_absorb_plain(s, line);
}

/// A decoder between two lines reads one frame as one event.
pub proof fn lemma_absorb_frame(s: Decoding, f: FrameModel)
    requires
        !s.finished,
        s.pending.len() == 0,
        valid_frame(f),
    ensures
        absorb(s, encode(f)) == (
            Decoding {
                pending: Seq::<u8>::empty(),
                last: if f.fd == 0 {
                    s.last
                } else {
                    Some(f.fd)
                },
                finished: f.fd == 0,
            },
            seq![item_of(f)],
        ),
{
    let line = seq![(48 + f.fd) as u8, 62u8, 32u8] + f.payload;
    assert(encode(f) == line.push(NEWLINE));
    lemma_absorb_line(s, line);
    assert(line.skip(3) == f.payload);
}

/// Encoding a sequence of frames and decoding the bytes gives the frames
/// back, in order, up to the first result.
pub proof fn lemma_round_trip_from(s: Decoding, frames: Seq<FrameModel>)
    requires
        !s.finished,
        s.pending.len() == 0,
        forall|i: int| 0 <= i < frames.len() ==> valid_frame(#[trigger] frames[i]),
    ensures
        absorb(s, encode_all(frames)).1 == delivered(frames),
        absorb(s, encode_all(frames)).0.pending.len() == 0,
    decreases frames.len(),
{
    if frames.len() > 0 {
        let f = frames[0];
        let rest = frames.drop_first();
        lemma_absorb_frame(s, f);
        lemma_absorb_concat(s, encode(f), encode_all(rest));
        let mid = absorb(s, encode(f)).0;
        if f.fd == 0 {
            lemma_finished(mid, encode_all(rest));
        } else {
            lemma_round_trip_from(mid, rest);
        }
    }
}

/// The round trip of the framer: whatever frames are encoded, and however the
/// bytes are cut into chunks, a decoder that starts fresh delivers the frames
/// in their order, up to the first result.
pub proof fn lemma_round_trip(frames: Seq<FrameModel>, chunks: Seq<Seq<u8>>)
    requires
        forall|i: int| 0 <= i < frames.len() ==> valid_frame(#[trigger] frames[i]),
        joined(chunks) == encode_all(frames),
    ensures
        absorb_chunks(start(), chunks).1 == delivered(frames),
{
    lemma_chunking(start(), chunks);
    lemma_round_trip_from(start(), frames);
}

/// Frames of output alone are all delivered.
pub proof fn lemma_output_is_delivered(frames: Seq<FrameModel>)
    requires
        forall|i: int| 0 <= i < frames.len() ==> (#[trigger] frames[i]).fd != 0,
    ensures
        delivered(frames) == Seq::new(frames.len(), |i: int| item_of(frames[i])),
    decreases frames.len(),
{
    if frames.len() > 0 {
        let rest = frames.drop_first();
        lemma_output_is_delivered(rest);
    }
}

/// A response as the server sends it is read whole: the lines of output,
/// each on descriptor 1 or 2, and the result as the last frame. However the
/// body is cut into chunks, the client is handed every line in order and the
/// result last.
pub proof fn lemma_response_is_read_whole(
    lines: Seq<FrameModel>,
    envelope: Seq<u8>,
    chunks: Seq<Seq<u8>>,
)
    requires
        forall|i: int|
            0 <= i < lines.len() ==> valid_frame(#[trigger] lines[i]) && lines[i].fd != 0,
        valid_frame(FrameModel { fd: 0, payload: envelope }),
        joined(chunks) == encode_all(lines.push(FrameModel { fd: 0, payload: envelope })),
    ensures
        absorb_chunks(start(), chunks).1 == Seq::new(lines.len(), |i: int| item_of(lines[i])).push(
            Item::Envelope { body: envelope },
        ),
        absorb_chunks(start(), chunks).0.finished,
{
    let last = FrameModel { fd: 0, payload: envelope };
    let all = lines.push(last);
    lemma_chunking(start(), chunks);
    lemma_encode_all_concat(lines, seq![last]);
    assert(all == lines + seq![last]);
    assert(encode_all(seq![last]) == encode(last)) by {
        assert(seq![last].drop_first() == Seq::<FrameModel>::empty());
        assert(encode_all(Seq::<FrameModel>::empty()) == Seq::<u8>::empty());
    }
    lemma_absorb_concat(start(), encode_all(lines), encode(last));
    assert forall|i: int| 0 <= i < lines.len() implies valid_frame(#[trigger] lines[i]) by {}
    lemma_round_trip_from(start(), lines);
    lemma_output_is_delivered(lines);
    let mid = absorb(start(), encode_all(lines)).0;
    lemma_output_leaves_open(start(), lines);
    lemma_absorb_frame(mid, last);
}

/// Encoding two sequences of frames one after the other is encoding them as
/// one sequence.
pub proof fn lemma_encode_all_concat(a: Seq<FrameModel>, b: Seq<FrameModel>)
    ensures
        encode_all(a + b) == encode_all(a) + encode_all(b),
    decreases a.len(),
{
    if a.len() > 0 {
        lemma_encode_all_concat(a.drop_first(), b);
        assert((a + b).drop_first() == a.drop_first() + b);
    }
}

/// Frames of output leave the decoder between two lines and open.
pub proof fn lemma_output_leaves_open(s: Decoding, frames: Seq<FrameModel>)
    requires
        !s.finished,
        s.pending.len() == 0,
        forall|i: int|
            0 <= i < frames.len() ==> valid_frame(#[trigger] frames[i]) && frames[i].fd != 0,
    ensures
        !absorb(s, encode_all(frames)).0.finished,
        absorb(s, encode_all(frames)).0.pending.len() == 0,
    decreases frames.len(),
{
    if frames.len() > 0 {
        let f = frames[0];
        let rest = frames.drop_first();
        lemma_absorb_frame(s, f);
        lemma_absorb_concat(s, encode(f), encode_all(rest));
        lemma_output_leaves_open(absorb(s, encode(f)).0, rest);
    }
}

/// Builds the bytes of one frame.
pub fn encode_frame(fd: u8, payload: &[u8]) -> (out: Vec<u8>)
    requires
        fd <= 2,
    ensures
        out@ == encode(FrameModel { fd, payload: payload@ }),
{
    let mut out: Vec<u8> = Vec::new();
    out.push(48 + fd);
    out.push(62);
    out.push(32);
    let mut i: usize = 0;
    while i < payload.len()
        invariant
            i <= payload.len(),
            fd <= 2,
            out@ == seq![(48 + fd) as u8, 62u8, 32u8] + payload@.take(i as int),
        decreases payload.len() - i,
    {
        out.push(payload[i]);
        i += 1;
    }
    out.push(NEWLINE);
    out
}

fn tail(line: &Vec<u8>, from: usize) -> (out: Vec<u8>)
    requires
        from <= line.len(),
    ensures
        out@ == line@.skip(from as int),
{
    let mut out: Vec<u8> = Vec::new();
    let mut i: usize = from;
    while i < line.len()
        invariant
            from <= i <= line.len(),
            out@ == line@.subrange(from as int, i as int),
        decreases line.len() - i,
    {
        out.push(line[i]);
        i += 1;
    }
    out
}

fn classify_line(line: Vec<u8>, last: Option<u8>) -> (event: Event)
    ensures
        event@ == classify(line@, last),
{
    let fd = parse_fd(line.as_slice());
    if fd == 0 {
        Event::Envelope { body: tail(&line, 3) }
    } else if fd == 1 || fd == 2 {
        Event::Output { fd: fd as u8, line: tail(&line, 3) }
    } else {
        match last {
            Some(f) => Event::Output { fd: f, line },
            None => Event::Unrecognized { line },
        }
    }
}

/// The decoder of a streamed response. It is fed the chunks of the body as
/// they arrive, whatever their boundaries.
#[derive(Debug)]
pub struct Deframer {
    pending: Vec<u8>,
    last: Option<u8>,
    finished: bool,
}

impl View for Deframer {
    type V = Decoding;

    closed spec fn view(&self) -> Decoding {
        Decoding { pending: self.pending@, last: self.last, finished: self.finished }
    }
}

impl Deframer {
    /// A decoder that has read nothing.
    pub fn new() -> (r: Self)
        ensures
            r@ == start(),
    {
        Deframer { pending: Vec::new(), last: None, finished: false }
    }

    /// Whether the result has been delivered.
    pub fn is_finished(&self) -> (r: bool)
        ensures
            r == self@.finished,
    {
        self.finished
    }

    /// Reads one chunk and hands out the events that it completes.
    pub fn feed(&mut self, chunk: &[u8]) -> (out: Vec<Event>)
        ensures
            (final(self)@, items(out@)) == absorb(old(self)@, chunk@),
    {
        let mut out: Vec<Event> = Vec::new();
        let mut i: usize = 0;
        while i < chunk.len()
            invariant
                i <= chunk.len(),
                (self@, items(out@)) == absorb(old(self)@, chunk@.take(i as int)),
            decreases chunk.len() - i,
        {
            let b = chunk[i];
            proof {
                let next = chunk@.take(i + 1);
                assert(next.drop_last() == chunk@.take(i as int));
            }
            if !self.finished {
                if b != NEWLINE {
                    self.pending.push(b);
                } else {
                    let mut line: Vec<u8> = Vec::new();
                    core::mem::swap(&mut self.pending, &mut line);
                    let event = classify_line(line, self.last);
                    match event {
                        Event::Output { fd, .. } => {
                            self.last = Some(fd);
                        },
                        Event::Envelope { .. } => {
                            self.finished = true;
                        },
                        Event::Unrecognized { .. } => {},
                    }
                    out.push(event);
                }
            }
            i += 1;
        }
        assert(chunk@.take(chunk.len() as int) == chunk@);
        out
    }

    /// What is reported when the body has ended: nothing where the result
    /// was delivered, and otherwise the failure that says the command did
    /// not finish.
    pub fn end_of_stream(&self) -> (r: Option<CommandResult>)
        ensures
            r is None <==> self@.finished,
            r matches Some(result) ==> result.is_err_shape() && result.error->0@
                == "Command Unfinished"@,
    {
        if self.finished {
            None
        } else {
            Some(CommandResult::err(String::from_str("Command Unfinished")))
        }
    }
}

} // verus!
