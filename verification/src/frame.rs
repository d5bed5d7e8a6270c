//! Framing: a four-byte little-endian length, then that many bytes.

use crate::text::{cat2, cat5, decimal, decimal_of};
use vstd::bytes::*;
use vstd::prelude::*;
use vstd::slice::*;

verus! {

/// Largest body of a frame: 256 MiB.
pub const MAX_FRAME_LEN: u32 = 268_435_456;

/// Failure to read or write a frame.
#[derive(Debug)]
pub enum FrameError {
    /// The body is larger than a frame may be.
    FrameTooLarge { len: u32, max: u32 },
    /// The input ends within a frame.
    Truncated,
    /// The body does not decode, for the reason given.
    Decode(String),
    /// The transport failed, for the reason given.
    Io(String),
}

/// A failure in words.
pub open spec fn error_text(e: FrameError) -> Seq<char> {
    match e {
        FrameError::FrameTooLarge { len, max } => "frame of "@ + decimal(len as nat) + " bytes exceeds maximum of "@
            + decimal(max as nat) + " bytes"@,
        FrameError::Truncated => "input ended within a frame"@,
        FrameError::Decode(reason) => "invalid frame body: "@ + reason@,
        FrameError::Io(reason) => reason@,
    }
}

impl FrameError {
    /// The failure in words.
    pub fn text(&self) -> (r: String)
        ensures
            r@ == error_text(*self),
    {
        match self {
            FrameError::FrameTooLarge { len, max } => cat5(
                "frame of ",
                decimal_of(*len as u64).as_str(),
                " bytes exceeds maximum of ",
                decimal_of(*max as u64).as_str(),
                " bytes",
            ),
            FrameError::Truncated => "input ended within a frame".to_owned(),
            FrameError::Decode(reason) => cat2("invalid frame body: ", reason.as_str()),
            FrameError::Io(reason) => reason.clone(),
        }
    }
}

/// `n`, cut off at the largest `u32`.
pub open spec fn capped_u32(n: nat) -> u32 {
    if n > u32::MAX { u32::MAX } else { n as u32 }
}

/// `usize` to `u32`, cut off.
pub fn as_u32(n: usize) -> (r: u32)
    ensures
        r == capped_u32(n as nat),
{
    if n > 0xffff_ffff { 0xffff_ffff } else { n as u32 }
}

/// The frame of a body.
pub open spec fn framed(body: Seq<u8>) -> Seq<u8> {
    spec_u32_to_le_bytes(body.len() as u32) + body
}

/// The frames of several bodies, one after the other.
pub open spec fn all_framed(bodies: Seq<Seq<u8>>) -> Seq<u8>
    decreases bodies.len(),
{
    if bodies.len() == 0 {
        Seq::empty()
    } else {
        framed(bodies[0]) + all_framed(bodies.skip(1))
    }
}

/// What stands at the front of `bytes`: nothing at the end of the input, else
/// the body of a frame and what follows it.
pub open spec fn first_frame(bytes: Seq<u8>) -> Result<Option<(Seq<u8>, Seq<u8>)>, FrameError> {
    if bytes.len() == 0 {
        Ok(None)
    } else if bytes.len() < 4 {
        Err(FrameError::Truncated)
    } else {
        let len = spec_u32_from_le_bytes(bytes.take(4));
        if len > MAX_FRAME_LEN {
            Err(FrameError::FrameTooLarge { len, max: MAX_FRAME_LEN })
        } else if bytes.len() < 4 + len {
            Err(FrameError::Truncated)
        } else {
            Ok(Some((bytes.subrange(4, 4 + len), bytes.skip(4 + len))))
        }
    }
}

/// The bodies that a reader gets which takes frame after frame up to the end
/// of the input; `None` if a frame cannot be read.
pub open spec fn unframed(bytes: Seq<u8>) -> Option<Seq<Seq<u8>>>
    decreases bytes.len(),
{
    match first_frame(bytes) {
        Err(_) => None,
        Ok(None) => Some(Seq::empty()),
        Ok(Some((body, rest))) => if rest.len() < bytes.len() {
            match unframed(rest) {
                Some(bodies) => Some(seq![body] + bodies),
                None => None,
            }
        } else {
            None
        },
    }
}

/// Appends the frame of `body`; a body over the limit is rejected before
/// anything is written.
pub fn write_frame(buf: &mut Vec<u8>, body: &[u8]) -> (r: Result<(), FrameError>)
    ensures
        r is Ok <==> body@.len() <= MAX_FRAME_LEN,
        r is Ok ==> final(buf)@ == old(buf)@ + framed(body@),
        r is Err ==> final(buf)@ == old(buf)@ && r->Err_0 == (FrameError::FrameTooLarge {
            len: capped_u32(body@.len()),
            max: MAX_FRAME_LEN,
        }),
{
    let len: u32 = as_u32(body.len());
    if len > MAX_FRAME_LEN {
        return Err(FrameError::FrameTooLarge { len, max: MAX_FRAME_LEN });
    }
    let prefix: Vec<u8> = u32_to_le_bytes(len);
    let ghost before = buf@;
    buf.extend_from_slice(prefix.as_slice());
    buf.extend_from_slice(body);
    proof {
        assert(buf@ =~= before + framed(body@));
    }
    Ok(())
}

/// Reads one frame off the front: nothing at the end of the input, else its
/// body and what follows.
pub fn read_frame(bytes: &[u8]) -> (r: Result<Option<(&[u8], &[u8])>, FrameError>)
    ensures
        match first_frame(bytes@) {
            Err(e) => r is Err && r->Err_0 == e,
            Ok(None) => r is Ok && r->Ok_0 is None,
            Ok(Some((body, rest))) => {
                &&& r is Ok && r->Ok_0 is Some
                &&& r->Ok_0->Some_0.0@ == body
                &&& r->Ok_0->Some_0.1@ == rest
            },
        },
{
    if bytes.len() == 0 {
        return Ok(None);
    }
    if bytes.len() < 4 {
        return Err(FrameError::Truncated);
    }
    let prefix: &[u8] = slice_subrange(bytes, 0, 4);
    proof {
        assert(prefix@ =~= bytes@.take(4));
    }
    let len: u32 = u32_from_le_bytes(prefix);
    if len > MAX_FRAME_LEN {
        return Err(FrameError::FrameTooLarge { len, max: MAX_FRAME_LEN });
    }
    let n: usize = len as usize;
    if bytes.len() - 4 < n {
        return Err(FrameError::Truncated);
    }
    let body: &[u8] = slice_subrange(bytes, 4, 4 + n);
    let rest: &[u8] = slice_subrange(bytes, 4 + n, bytes.len());
    proof {
        assert(rest@ =~= bytes@.skip(4 + len));
    }
    Ok(Some((body, rest)))
}

/// Reading the frame of a body, with anything behind it, gives the body back
/// and leaves what stands behind it.
pub proof fn law_frame_round_trip(body: Seq<u8>, rest: Seq<u8>)
    requires
        body.len() <= MAX_FRAME_LEN,
    ensures
        first_frame(framed(body) + rest) == Ok::<Option<(Seq<u8>, Seq<u8>)>, FrameError>(Some((body, rest))),
{
    lemma_auto_spec_u32_to_from_le_bytes();
    let bytes = framed(body) + rest;
    let prefix = spec_u32_to_le_bytes(body.len() as u32);
    assert(prefix.len() == 4);
    assert(bytes.take(4) =~= prefix);
    assert(bytes.subrange(4, 4 + body.len() as int) =~= body);
    assert(bytes.skip(4 + body.len() as int) =~= rest);
}

/// Reading frame after frame gives back every body that was framed, in order.
pub proof fn law_frames_read_back(bodies: Seq<Seq<u8>>)
    requires
        forall|i: int| 0 <= i < bodies.len() ==> (#[trigger] bodies[i]).len() <= MAX_FRAME_LEN,
    ensures
        unframed(all_framed(bodies)) == Some(bodies),
    decreases bodies.len(),
{
    if bodies.len() == 0 {
        assert(bodies =~= Seq::empty());
    } else {
        let rest = bodies.skip(1);
        assert forall|i: int| 0 <= i < rest.len() implies (#[trigger] rest[i]).len() <= MAX_FRAME_LEN by {
            assert(rest[i] == bodies[i + 1]);
        }
        law_frames_read_back(rest);
        law_frame_round_trip(bodies[0], all_framed(rest));
        lemma_auto_spec_u32_to_from_le_bytes();
        assert(seq![bodies[0]] + rest =~= bodies);
    }
}

/// Sending one body more appends its frame behind all those sent before.
pub proof fn law_frames_append(bodies: Seq<Seq<u8>>, body: Seq<u8>)
    ensures
        all_framed(bodies.push(body)) == all_framed(bodies) + framed(body),
    decreases bodies.len(),
{
    let longer = bodies.push(body);
    if bodies.len() == 0 {
        assert(longer.skip(1) =~= Seq::empty());
        assert(all_framed(longer.skip(1)) =~= Seq::empty());
        assert(all_framed(longer) =~= all_framed(bodies) + framed(body));
    } else {
        assert(longer.skip(1) =~= bodies.skip(1).push(body));
        law_frames_append(bodies.skip(1), body);
        assert(all_framed(longer) =~= all_framed(bodies) + framed(body));
    }
}

/// A frame is the length of the body in four bytes, then the body.
pub proof fn law_frames_begin_with_their_length(body: Seq<u8>)
    requires
        body.len() <= MAX_FRAME_LEN,
    ensures
        framed(body).len() == 4 + body.len(),
        spec_u32_from_le_bytes(framed(body).take(4)) == body.len(),
        framed(body).skip(4) == body,
{
    lemma_auto_spec_u32_to_from_le_bytes();
    assert(framed(body).take(4) =~= spec_u32_to_le_bytes(body.len() as u32));
    assert(framed(body).skip(4) =~= body);
}

/// What is read off the front is what was framed there: nothing of the input is
/// lost, and no body is over 256 MiB.
pub proof fn law_frames_are_read_whole(bytes: Seq<u8>, body: Seq<u8>, rest: Seq<u8>)
    requires
        first_frame(bytes) == Ok::<Option<(Seq<u8>, Seq<u8>)>, FrameError>(Some((body, rest))),
    ensures
        bytes == framed(body) + rest,
        body.len() <= 256 * 1024 * 1024,
{
    lemma_auto_spec_u32_to_from_le_bytes();
    assert(bytes =~= framed(body) + rest);
}

/// An input that breaks off within a frame is refused as such, and only an
/// empty input is taken for the end.
pub proof fn law_cut_frames_are_noticed(body: Seq<u8>, n: int)
    requires
        body.len() <= MAX_FRAME_LEN,
        0 <= n < framed(body).len(),
    ensures
        n == 0 ==> first_frame(framed(body).take(n)) == Ok::<Option<(Seq<u8>, Seq<u8>)>, FrameError>(None),
        n > 0 ==> first_frame(framed(body).take(n)) == Err::<Option<(Seq<u8>, Seq<u8>)>, FrameError>(
            FrameError::Truncated,
        ),
{
    lemma_auto_spec_u32_to_from_le_bytes();
    if n >= 4 {
        assert(framed(body).take(n).take(4) =~= spec_u32_to_le_bytes(body.len() as u32));
    }
}

/// A length over 256 MiB is refused by its number, whatever follows it.
pub proof fn law_oversized_frames_are_refused(len: u32, rest: Seq<u8>)
    requires
        len > 256 * 1024 * 1024,
    ensures
        first_frame(spec_u32_to_le_bytes(len) + rest) == Err::<Option<(Seq<u8>, Seq<u8>)>, FrameError>(
            FrameError::FrameTooLarge { len, max: 268_435_456u32 },
        ),
{
    lemma_auto_spec_u32_to_from_le_bytes();
    assert((spec_u32_to_le_bytes(len) + rest).take(4) =~= spec_u32_to_le_bytes(len));
}

/// A sink for framed events, decoupling the child from its transport.
///
/// An error is a transport failure that ends the child, except for a frame
/// that is too large: it is rejected before anything is written.
pub trait EventSink {
    /// Frames and emits one encoded event.
    fn send(&mut self, body: &[u8]) -> Result<(), FrameError>;
}

/// A sink that appends framed events to an in-memory buffer.
pub struct VecEventSink {
    frames: Vec<u8>,
}

impl View for VecEventSink {
    type V = Seq<u8>;

    closed spec fn view(&self) -> Seq<u8> {
        self.frames@
    }
}

impl VecEventSink {
    /// A sink with an empty buffer.
    #[must_use]
    pub fn new() -> (r: VecEventSink)
        ensures
            r@ == Seq::<u8>::empty(),
    {
        VecEventSink { frames: Vec::new() }
    }

    /// Returns the frames buffered since the last call and clears the buffer.
    pub fn take(&mut self) -> (r: Vec<u8>)
        ensures
            r@ == old(self)@,
            final(self)@ == Seq::<u8>::empty(),
    {
        let mut out: Vec<u8> = Vec::new();
        out.append(&mut self.frames);
        proof {
            assert(out@ =~= old(self)@);
            assert(self@ =~= Seq::<u8>::empty());
        }
        out
    }
}

impl EventSink for VecEventSink {
    fn send(&mut self, body: &[u8]) -> (r: Result<(), FrameError>)
        ensures
            r is Ok <==> body@.len() <= MAX_FRAME_LEN,
            r is Ok ==> final(self)@ == old(self)@ + framed(body@),
            r is Err ==> final(self)@ == old(self)@ && r->Err_0 == (FrameError::FrameTooLarge {
                len: capped_u32(body@.len()),
                max: MAX_FRAME_LEN,
            }),
    {
        write_frame(&mut self.frames, body)
    }
}

/// A failure says what went wrong, with both lengths where a frame is too
/// large.
pub proof fn law_failures_in_words(e: FrameError)
    ensures
        e is FrameTooLarge ==> error_text(e) == "frame of "@ + decimal(e->len as nat) + " bytes exceeds maximum of "@
            + decimal(e->max as nat) + " bytes"@,
        e is Truncated ==> error_text(e) == "input ended within a frame"@,
        e is Decode ==> error_text(e) == "invalid frame body: "@ + e->Decode_0@,
        e is Io ==> error_text(e) == e->Io_0@,
{
}

/// A length that fits is kept, and any other is cut off at the largest one.
pub proof fn law_lengths_are_cut_off(n: nat)
    ensures
        n <= u32::MAX ==> capped_u32(n) == n,
        n > u32::MAX ==> capped_u32(n) == u32::MAX,
{
}

} // verus!
