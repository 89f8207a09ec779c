//! The framed transport: a raw duplex byte stream plus a pluggable codec,
//! turned into "receive one decoded message". Partial trailing bytes stay
//! buffered for the next call; a closed stream while a decode is pending is
//! an unexpected end of stream.

use vstd::prelude::*;

verus! {

/// A transport error, as the surrounding environment reported it.
#[derive(Debug)]
pub struct StreamError {
    pub message: String,
}

/// Why receiving a message failed: the stream itself failed, the stream
/// ended while a decode was pending, or the buffered bytes cannot be a
/// message.
#[derive(Debug)]
pub enum FramedError {
    Io(StreamError),
    UnexpectedEof,
    InvalidData,
}

/// A duplex byte channel: the one indirection between the framed transport
/// and whatever concrete stream an environment supplies. Reading hands back
/// at most `max` bytes; an empty chunk means the stream has closed.
pub trait StreamMarker {
    /// The bytes the stream has yet to serve before it closes, front first:
    /// the model a read draws from. Every stream serves finitely many bytes,
    /// so a receive loop that drains one terminates. An implementation
    /// outside the library is not checked against this model, as with every
    /// contract on unverified code.
    open spec fn serving(&self) -> Seq<u8> {
        Seq::empty()
    }

    fn stream_read(&mut self, max: usize) -> (r: Result<Vec<u8>, StreamError>)
        ensures
            (r matches Result::Ok(chunk) ==> {
                &&& chunk@.len() <= max
                &&& chunk@.len() <= old(self).serving().len()
                &&& chunk@ == old(self).serving().take(chunk@.len() as int)
                &&& final(self).serving() == old(self).serving().skip(chunk@.len() as int)
                &&& (chunk@.len() == 0 <==> (old(self).serving().len() == 0 || max == 0))
            }),
            (r matches Result::Err(e) ==> final(self).serving() == old(self).serving()),
    ;

    fn stream_write(&mut self, data: &[u8]) -> (r: Result<(), StreamError>);
}

/// What a codec makes of the front of a buffer: not yet a whole message, a
/// structural error, or one message (as the mathematical value of the item)
/// together with how many bytes it occupies.
pub enum DecodeStep<T> {
    Incomplete,
    Invalid,
    Item(T, int),
}

/// Encoding a typed item to outgoing bytes.
pub trait Encoder {
    type Item: View;

    /// The byte encoding of an item value.
    spec fn encoding_of(item: <Self::Item as View>::V) -> Seq<u8>;

    fn encode(&mut self, item: Self::Item, dst: &mut Vec<u8>) -> (r: Result<(), FramedError>)
        ensures
            r matches Result::Ok(u) ==> final(dst)@ == old(dst)@ + Self::encoding_of(item@),
    ;
}

/// Decoding a typed item from buffered bytes, or reporting not-yet-enough
/// data. A decode consumes only the bytes constituting one complete message
/// and leaves the remainder buffered.
pub trait Decoder {
    type Item: View;

    /// What the codec makes of a buffer's front.
    spec fn decoded(src: Seq<u8>) -> DecodeStep<<Self::Item as View>::V>;

    fn decode(&mut self, src: &mut Vec<u8>) -> (r: Result<Option<Self::Item>, FramedError>)
        ensures
            (match Self::decoded(old(src)@) {
                DecodeStep::Incomplete => r matches Result::Ok(o) && o is None && final(src)@ == old(
                    src,
                )@,
                DecodeStep::Invalid => (r matches Result::Err(e) && e is InvalidData) && final(src)@
                    == old(src)@,
                DecodeStep::Item(v, used) => (r matches Result::Ok(o) && o matches Option::Some(
                    item,
                ) && item@ == v && 0 <= used <= old(src)@.len() && final(src)@ == old(
                    src,
                )@.skip(used)),
            }),
    ;
}

/// Pairs a byte stream with a codec and hands out one decoded message at a
/// time. The buffer grows only by appended reads and shrinks only by the
/// codec consuming a complete message's bytes.
pub struct Framed<S: StreamMarker, C: Encoder + Decoder> {
    stream: S,
    codec: C,
    read_buffer: Vec<u8>,
}

impl<S: StreamMarker, C: Encoder + Decoder> Framed<S, C> {
    /// The bytes read from the stream but not yet consumed into a message.
    pub closed spec fn buffered(&self) -> Seq<u8> {
        self.read_buffer@
    }

    /// The bytes the underlying stream has yet to serve.
    pub closed spec fn upcoming(&self) -> Seq<u8> {
        self.stream.serving()
    }

    pub fn new(stream: S, codec: C) -> (r: Framed<S, C>)
        ensures
            r.buffered() == Seq::<u8>::empty(),
            r.upcoming() == stream.serving(),
    {
        let r = Framed { stream, codec, read_buffer: Vec::new() };
        proof {
            assert(r.buffered() =~= Seq::<u8>::empty());
        }
        r
    }

    /// Receives the next message: decode from the front of the buffer; on
    /// not-enough-data, one read of up to a fixed chunk size is appended and
    /// the decode retried; a zero-length read while a decode is pending is an
    /// unexpected end of stream; a structural decode error propagates at
    /// once. The buffer grows only by bytes the stream served and shrinks
    /// only by the prefix one complete message occupies.
    pub fn next(&mut self) -> (r: Result<<C as Decoder>::Item, FramedError>)
        ensures
    // a message or a structural error already buffered settles the call at
    // once, the stream untouched

            (match C::decoded(old(self).buffered()) {
                DecodeStep::Item(v, used) => (r matches Result::Ok(item) && item@ == v && final(self).buffered() == old(self).buffered().skip(used) && final(self).upcoming() == old(self).upcoming()),
                DecodeStep::Invalid => (r matches Result::Err(e) && e is InvalidData && final(self).buffered() == old(self).buffered() && final(self).upcoming() == old(self).upcoming()),
                DecodeStep::Incomplete => true,
            }),
            // every outcome appends exactly a prefix of what the stream
            // serves, keeps the rest of the stream for later, and never
            // discards partial trailing bytes
            (match r {
                Result::Ok(item) => exists|k: int|
                    #![trigger old(self).upcoming().take(k)]
                    {
                        let full = old(self).buffered() + old(self).upcoming().take(k);
                        &&& 0 <= k <= old(self).upcoming().len()
                        &&& C::decoded(full) matches DecodeStep::Item(v, used) && v == item@
                            && final(self).buffered() == full.skip(used)
                        &&& final(self).upcoming() == old(self).upcoming().skip(k)
                    },
                Result::Err(e) => exists|k: int|
                    #![trigger old(self).upcoming().take(k)]
                    {
                        let full = old(self).buffered() + old(self).upcoming().take(k);
                        &&& 0 <= k <= old(self).upcoming().len()
                        &&& final(self).buffered() == full
                        &&& final(self).upcoming() == old(self).upcoming().skip(k)
                        &&& (match e {
                            FramedError::InvalidData => C::decoded(full) is Invalid,
                            FramedError::UnexpectedEof => C::decoded(full) is Incomplete && k
                                == old(self).upcoming().len(),
                            FramedError::Io(se) => C::decoded(full) is Incomplete,
                        })
                    },
            }),
            // a stream that runs dry before any prefix completes a message
            // cannot end in success or a structural error: only the
            // unexpected end, or the stream's own failure, remains
            (forall|k: int|
                0 <= k <= old(self).upcoming().len() ==> (#[trigger] C::decoded(
                    old(self).buffered() + old(self).upcoming().take(k),
                )) is Incomplete) ==> (r matches Result::Err(e) && (e is UnexpectedEof
                || e is Io)),
    {
        let ghost start = self.read_buffer@;
        let ghost up0 = self.stream.serving();
        let ghost mut k: int = 0;
        proof {
            assert(start + up0.take(0) =~= start);
        }
        loop
            invariant
                start == old(self).buffered(),
                up0 == old(self).upcoming(),
                0 <= k <= up0.len(),
                self.read_buffer@ == start + up0.take(k),
                self.stream.serving() == up0.skip(k),
                k == 0 || C::decoded(start) is Incomplete,
            decreases self.stream.serving().len(),
        {
            match self.codec.decode(&mut self.read_buffer) {
                Result::Ok(Option::Some(item)) => {
                    proof {
                        assert(C::decoded(start + up0.take(k)) matches DecodeStep::Item(v, used)
                            && v == item@ && self.read_buffer@ == (start + up0.take(k)).skip(used));
                        if k == 0 {
                            assert(start + up0.take(0) =~= start);
                        }
                    }
                    return Result::Ok(item);
                },
                Result::Ok(Option::None) => {
                    proof {
                        assert(C::decoded(start + up0.take(k)) is Incomplete);
                        if k == 0 {
                            assert(start + up0.take(0) =~= start);
                        }
                    }
                    let chunk = match self.stream.stream_read(1024) {
                        Result::Ok(c) => c,
                        Result::Err(se) => {
                            return Result::Err(FramedError::Io(se));
                        },
                    };
                    if chunk.len() == 0 {
                        proof {
                            assert(up0.skip(k).len() == 0);
                            assert(k == up0.len());
                        }
                        return Result::Err(FramedError::UnexpectedEof);
                    }
                    proof {
                        let c = chunk@.len() as int;
                        assert(chunk@ =~= up0.skip(k).take(c));
                        assert(up0.take(k) + up0.skip(k).take(c) =~= up0.take(k + c));
                        assert(up0.skip(k).skip(c) =~= up0.skip(k + c));
                        k = k + c;
                    }
                    let mut tail = chunk;
                    self.read_buffer.append(&mut tail);
                },
                Result::Err(e) => {
                    proof {
                        assert(C::decoded(start + up0.take(k)) is Invalid);
                        if k == 0 {
                            assert(start + up0.take(0) =~= start);
                        }
                    }
                    return Result::Err(e);
                },
            }
        }
    }
}

/// An in-memory duplex stream: reads serve the front of a fixed byte
/// sequence until it runs out, then report the closed stream; writes gather
/// into a buffer.
pub struct MemoryStream {
    input: Vec<u8>,
    output: Vec<u8>,
}

impl MemoryStream {
    /// The bytes the stream has not yet served, front first.
    pub closed spec fn pending(&self) -> Seq<u8> {
        self.input@.reverse()
    }


    /// The bytes written to the stream so far.
    pub closed spec fn written(&self) -> Seq<u8> {
        self.output@
    }

    /// A stream that will serve exactly `data`, then be closed.
    pub fn new(data: Vec<u8>) -> (r: MemoryStream)
        ensures
            r.pending() == data@,
            r.written() == Seq::<u8>::empty(),
    {
        let mut input: Vec<u8> = Vec::new();
        let mut i: usize = data.len();
        while i > 0
            invariant
                i <= data@.len(),
                input@.len() == data@.len() - i,
                forall|j: int| 0 <= j < input@.len() ==> input@[j] == data@[data@.len() - 1 - j],
            decreases i,
        {
            i -= 1;
            input.push(data[i]);
        }
        let r = MemoryStream { input, output: Vec::new() };
        proof {
            assert(r.pending() =~= data@);
            assert(r.written() =~= Seq::<u8>::empty());
        }
        r
    }

    /// Hands the gathered writes out.
    pub fn into_written(self) -> (r: Vec<u8>)
        ensures
            r@ == self.written(),
    {
        self.output
    }
}

impl StreamMarker for MemoryStream {
    open spec fn serving(&self) -> Seq<u8> {
        self.pending()
    }

    fn stream_read(&mut self, max: usize) -> (r: Result<Vec<u8>, StreamError>)
        ensures
            (r matches Result::Ok(chunk) && {
                let k = if max <= old(self).pending().len() {
                    max as int
                } else {
                    old(self).pending().len() as int
                };
                &&& chunk@ == old(self).pending().take(k)
                &&& final(self).pending() == old(self).pending().skip(k)
                &&& final(self).written() == old(self).written()
            }),
    {
        let mut chunk: Vec<u8> = Vec::new();
        let mut n: usize = 0;
        while n < max
            invariant
                chunk@.len() == n,
                n <= max,
                n <= old(self).input@.len(),
                self.input@ == old(self).input@.take(old(self).input@.len() - n),
                chunk@ == old(self).pending().take(n as int),
                self.output == old(self).output,
            decreases max - n,
        {
            match self.input.pop() {
                Option::Some(b) => {
                    proof {
                        assert(self.input@ =~= old(self).input@.take(
                            old(self).input@.len() - (n + 1),
                        ));
                        assert(old(self).pending()[n as int] == old(self).input@[old(self).input@.len() - 1 - n]);
                        assert(chunk@.push(b) =~= old(self).pending().take(n + 1));
                    }
                    chunk.push(b);
                },
                Option::None => {
                    proof {
                        assert(old(self).pending().len() == n);
                        assert(chunk@ =~= old(self).pending().take(n as int));
                        assert(self.pending() =~= old(self).pending().skip(n as int));
                    }
                    return Result::Ok(chunk);
                },
            }
            n += 1;
        }
        proof {
            assert(self.pending() =~= old(self).pending().skip(n as int));
        }
        Result::Ok(chunk)
    }

    fn stream_write(&mut self, data: &[u8]) -> (r: Result<(), StreamError>)
        ensures
            r is Ok,
            final(self).written() == old(self).written() + data@,
            final(self).pending() == old(self).pending(),
    {
        self.output.extend_from_slice(data);
        Result::Ok(())
    }
}

/// The index of the first occurrence of `b` in `s`, or -1 when `b` does not
/// occur.
pub open spec fn first_byte_index(s: Seq<u8>, b: u8) -> int
    decreases s.len(),
{
    if s.len() == 0 {
        -1
    } else if s[0] == b {
        0
    } else {
        let r = first_byte_index(s.skip(1), b);
        if r < 0 {
            -1
        } else {
            r + 1
        }
    }
}

/// Characterizes [`first_byte_index`]: the result is the first position of
/// `b`, or -1 when `b` is absent.
pub proof fn lemma_first_byte_index(s: Seq<u8>, b: u8)
    ensures
        -1 <= first_byte_index(s, b) < s.len(),
        first_byte_index(s, b) == -1 ==> forall|j: int| 0 <= j < s.len() ==> s[j] != b,
        first_byte_index(s, b) >= 0 ==> {
            let r = first_byte_index(s, b);
            &&& s[r] == b
            &&& forall|j: int| 0 <= j < r ==> s[j] != b
        },
    decreases s.len(),
{
    if s.len() == 0 {
    } else if s[0] == b {
    } else {
        lemma_first_byte_index(s.skip(1), b);
        let r = first_byte_index(s.skip(1), b);
        if r < 0 {
            assert forall|j: int| 0 <= j < s.len() implies s[j] != b by {
                if j > 0 {
                    assert(s.skip(1)[j - 1] == s[j]);
                }
            }
        } else {
            assert(s[r + 1] == s.skip(1)[r]);
            assert forall|j: int| 0 <= j < r + 1 implies s[j] != b by {
                if j > 0 {
                    assert(s.skip(1)[j - 1] == s[j]);
                }
            }
        }
    }
}

/// A codec for newline-delimited messages: one message per line, the
/// newline consumed but not part of the message.
pub struct LinesCodec {}

impl Encoder for LinesCodec {
    type Item = Vec<u8>;

    open spec fn encoding_of(item: Seq<u8>) -> Seq<u8> {
        item
    }

    fn encode(&mut self, item: Vec<u8>, dst: &mut Vec<u8>) -> (r: Result<(), FramedError>) {
        dst.extend_from_slice(item.as_slice());
        Result::Ok(())
    }
}

impl Decoder for LinesCodec {
    type Item = Vec<u8>;

    open spec fn decoded(src: Seq<u8>) -> DecodeStep<Seq<u8>> {
        let p = first_byte_index(src, 10);
        if p < 0 {
            DecodeStep::Incomplete
        } else {
            DecodeStep::Item(src.take(p), p + 1)
        }
    }

    fn decode(&mut self, src: &mut Vec<u8>) -> (r: Result<Option<Vec<u8>>, FramedError>) {
        let mut i: usize = 0;
        while i < src.len() && src[i] != 10
            invariant
                i <= src@.len(),
                forall|j: int| 0 <= j < i ==> src@[j] != 10,
            decreases src@.len() - i,
        {
            i += 1;
        }
        if i == src.len() {
            proof {
                lemma_first_byte_index(src@, 10);
            }
            return Result::Ok(Option::None);
        }
        proof {
            lemma_first_byte_index(src@, 10);
            assert(first_byte_index(src@, 10) == i) by {
                let r = first_byte_index(src@, 10);
                if r < i {
                    assert(src@[r] != 10);
                } else if r > i {
                    assert(src@[i as int] != 10);
                }
            }
        }
        let line = vstd::slice::slice_to_vec(vstd::slice::slice_subrange(src.as_slice(), 0, i));
        let rest = vstd::slice::slice_to_vec(
            vstd::slice::slice_subrange(src.as_slice(), i + 1, src.len()),
        );
        *src = rest;
        proof {
            assert(line@ =~= old(src)@.take(i as int));
            assert(src@ =~= old(src)@.skip(i + 1));
        }
        Result::Ok(Option::Some(line))
    }
}

} // verus!
