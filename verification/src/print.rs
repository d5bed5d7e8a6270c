//! Line-buffered streaming of sandbox output.

use crate::exc::ExcType;
use crate::proto::{event, ChildEvent, EventKind, PrintStream, RaisedException};
use crate::text::{byte_len, cat2, chars_of, join, utf8_len, views};
use vstd::prelude::*;
use vstd::string::*;
use vstd::utf8::{
    decode_utf8_split, encode_utf8, encode_utf8_decode_utf8, encode_utf8_valid_utf8, is_char_boundary,
    is_char_boundary_start_end_of_seq,
};

verus! {

/// Flush threshold in bytes for output that never produces a newline.
pub const FLUSH_BYTES: usize = 8192;

/// The texts one after the other.
pub open spec fn concat_all(parts: Seq<Seq<char>>) -> Seq<char> {
    join(parts, Seq::empty())
}

/// Whether a buffer has to be flushed: it ends a line or is full.
pub open spec fn flush_due(buf: Seq<char>) -> bool {
    (buf.len() > 0 && buf.last() == '\n') || utf8_len(buf) >= FLUSH_BYTES
}

/// Whether `idx` is the largest char boundary of `s` that is at most `max`.
pub open spec fn is_floor_boundary(s: Seq<char>, max: nat, idx: nat) -> bool {
    &&& idx <= utf8_len(s)
    &&& idx <= max
    &&& is_char_boundary(encode_utf8(s), idx as int)
    &&& forall|k: int| idx < k <= max && k <= utf8_len(s) ==> !#[trigger] is_char_boundary(encode_utf8(s), k)
}

/// How many characters at the front of `s` fit into `room` bytes.
pub open spec fn fitting(s: Seq<char>, room: nat) -> nat
    decreases s.len(),
{
    if s.len() == 0 || utf8_len(s.take(1)) > room {
        0
    } else {
        1 + fitting(s.skip(1), (room - utf8_len(s.take(1))) as nat)
    }
}

/// How many characters of `rest` the threshold leaves room for behind `buf`.
pub open spec fn taken(buf: Seq<char>, rest: Seq<char>) -> nat {
    fitting(rest, (FLUSH_BYTES - utf8_len(buf)) as nat)
}

/// The texts that are handed on when `rest` is written behind `buf`, and what
/// stays buffered: the buffer is filled up as far as characters fit, and handed
/// on when it ends a line, is full, or has no room for the next character.
pub open spec fn written(buf: Seq<char>, rest: Seq<char>) -> (Seq<Seq<char>>, Seq<char>)
    decreases rest.len(), buf.len(),
    via written_terminates
{
    let n = taken(buf, rest) as int;
    let filled = buf + rest.take(n);
    if rest.len() == 0 || filled.len() == 0 {
        (Seq::empty(), buf)
    } else if n == 0 || flush_due(filled) {
        let (pieces, left) = written(Seq::empty(), rest.skip(n));
        (seq![filled] + pieces, left)
    } else {
        written(filled, rest.skip(n))
    }
}

#[via_fn]
proof fn written_terminates(buf: Seq<char>, rest: Seq<char>) {
    lemma_fitting(rest, (FLUSH_BYTES - utf8_len(buf)) as nat);
}

/// Largest index `<= max` (capped at the length of `s`) that is a char
/// boundary of `s`.
pub fn floor_char_boundary(s: &str, max: usize) -> (idx: usize)
    ensures
        is_floor_boundary(s@, max as nat, idx as nat),
{
    proof {
        encode_utf8_valid_utf8(s@);
        is_char_boundary_start_end_of_seq(encode_utf8(s@));
    }
    let len: usize = byte_len(s);
    if max >= len {
        return len;
    }
    let mut idx: usize = max;
    while !s.is_char_boundary(idx)
        invariant
            idx <= max < len,
            len == utf8_len(s@),
            is_char_boundary(encode_utf8(s@), 0),
            forall|k: int| idx < k <= max ==> !#[trigger] is_char_boundary(encode_utf8(s@), k),
        decreases idx,
    {
        idx = idx - 1;
    }
    idx
}

/// Buffered output of sandboxed code.
///
/// A piece of text is handed on when the buffer ends with a newline or reaches
/// `FLUSH_BYTES`; a partial line goes out before the turn ends.
pub struct ProtoPrint {
    buf: String,
}

impl View for ProtoPrint {
    type V = Seq<char>;

    closed spec fn view(&self) -> Seq<char> {
        self.buf@
    }
}

impl ProtoPrint {
    /// Between operations the buffer is below the threshold and in the middle of a line.
    pub open spec fn wf(self) -> bool {
        !flush_due(self@)
    }

    /// An empty buffer.
    pub fn new() -> (r: ProtoPrint)
        ensures
            r@ == Seq::<char>::empty(),
            r.wf(),
    {
        ProtoPrint { buf: String::new() }
    }

    /// Takes the buffered text, if there is any.
    pub fn flush(&mut self) -> (r: Option<String>)
        ensures
            final(self)@ == Seq::<char>::empty(),
            final(self).wf(),
            r is None <==> old(self)@.len() == 0,
            r is Some ==> r->Some_0@ == old(self)@,
    {
        if self.buf.as_str().is_empty() {
            proof {
                assert(self@ =~= Seq::<char>::empty());
            }
            return None;
        }
        let text: String = self.buf.clone();
        self.buf = String::new();
        Some(text)
    }

    /// Takes the buffered text where a flush is due.
    pub fn maybe_flush(&mut self) -> (r: Option<String>)
        ensures
            final(self).wf(),
            r is Some <==> flush_due(old(self)@),
            r is Some ==> r->Some_0@ == old(self)@ && final(self)@ == Seq::<char>::empty(),
            r is None ==> final(self)@ == old(self)@,
    {
        let chars: Vec<char> = chars_of(self.buf.as_str());
        let ends_line: bool = chars.len() > 0 && chars[chars.len() - 1] == '\n';
        if ends_line || byte_len(self.buf.as_str()) >= FLUSH_BYTES {
            proof {
                assert(self@.len() == 0 ==> self@ =~= Seq::<char>::empty());
            }
            self.flush()
        } else {
            None
        }
    }

    /// Takes any trailing partial line; called before every turn-ending event.
    pub fn drain(&mut self) -> (r: Option<String>)
        ensures
            final(self)@ == Seq::<char>::empty(),
            final(self).wf(),
            r is None <==> old(self)@.len() == 0,
            r is Some ==> r->Some_0@ == old(self)@,
    {
        self.flush()
    }

    /// Appends as much of `rest` as the threshold leaves room for. Returns how
    /// many bytes of it were taken and the text to hand on, if any.
    ///
    /// When not even one character fits, nothing is taken and the buffer is
    /// flushed to free the whole threshold.
    pub fn write_piece<'a>(&mut self, rest: &'a str) -> (r: (&'a str, Option<String>))
        requires
            old(self).wf(),
            rest@.len() > 0,
        ensures
            final(self).wf(),
            ({
                let n = taken(old(self)@, rest@) as int;
                let filled = old(self)@ + rest@.take(n);
                &&& 0 <= n <= rest@.len()
                &&& 0 < utf8_len(filled) <= FLUSH_BYTES
                &&& r.0@ == rest@.skip(n)
                &&& r.1 is Some <==> n == 0 || flush_due(filled)
                &&& r.1 is Some ==> r.1->Some_0@ == filled && final(self)@ == Seq::<char>::empty()
                &&& r.1 is None ==> final(self)@ == filled
            }),
    {
        let ghost before = self@;
        proof {
            encode_utf8_valid_utf8(rest@);
            encode_utf8_decode_utf8(rest@);
        }
        let room: usize = FLUSH_BYTES - byte_len(self.buf.as_str());
        let take: usize = floor_char_boundary(rest, room);
        let (head, tail) = rest.split_at(take);
        proof {
            decode_utf8_split(encode_utf8(rest@), take as int);
            encode_utf8_decode_utf8(head@);
            encode_utf8_decode_utf8(tail@);
            assert(rest@ == head@ + tail@);
            lemma_piece(rest@, room as nat, head@, tail@);
            assert(tail@ =~= rest@.skip(head@.len() as int));
            lemma_utf8_len_concat(before, head@);
        }
        if take == 0 {
            proof {
                lemma_empty_of_utf8_len(head@);
                assert(before + head@ =~= before);
                if before.len() == 0 {
                    assert(before =~= Seq::<char>::empty());
                    lemma_first_char_boundary(rest@);
                }
            }
            let text: Option<String> = self.flush();
            return (tail, text);
        }
        self.buf.append(head);
        let text: Option<String> = self.maybe_flush();
        (tail, text)
    }

    /// Appends text, handing on each piece that is due.
    pub fn stdout_write(&mut self, output: &str) -> (r: Vec<String>)
        requires
            old(self).wf(),
        ensures
            final(self).wf(),
            (views(r@), final(self)@) == written(old(self)@, output@),
    {
        let mut out: Vec<String> = Vec::new();
        let mut rest: &str = output;
        let ghost start = self@;
        proof {
            assert(views(out@) =~= Seq::<Seq<char>>::empty());
            assert(views(out@) + written(self@, rest@).0 =~= written(start, output@).0);
        }
        while !rest.is_empty()
            invariant
                self.wf(),
                views(out@) + written(self@, rest@).0 == written(start, output@).0,
                written(self@, rest@).1 == written(start, output@).1,
            decreases rest@.len(), self@.len(),
        {
            let ghost buf0 = self@;
            let ghost rest0 = rest@;
            let ghost out0 = views(out@);
            let ghost filled = buf0 + rest0.take(taken(buf0, rest0) as int);
            let (tail, text) = self.write_piece(rest);
            proof {
                if filled.len() == 0 {
                    assert(filled =~= Seq::<char>::empty());
                }
            }
            match text {
                Some(text) => {
                    let ghost t = text@;
                    out.push(text);
                    proof {
                        assert(views(out@) =~= out0.push(t));
                        assert(out0.push(t) + written(self@, tail@).0 =~= out0 + (seq![t] + written(self@, tail@).0));
                        if taken(buf0, rest0) == 0 {
                            assert(tail@ =~= rest0);
                            assert(filled =~= buf0);
                        }
                    }
                },
                None => {},
            }
            rest = tail;
        }
        proof {
            assert(views(out@) + written(self@, rest@).0 =~= views(out@));
        }
        out
    }

    /// Appends one character.
    pub fn stdout_push(&mut self, end: char) -> (r: Option<String>)
        requires
            old(self).wf(),
        ensures
            final(self).wf(),
            r is Some <==> flush_due(old(self)@.push(end)),
            r is Some ==> r->Some_0@ == old(self)@.push(end) && final(self)@ == Seq::<char>::empty(),
            r is None ==> final(self)@ == old(self)@.push(end),
    {
        self.buf.push(end);
        self.maybe_flush()
    }
}

/// The event that carries a piece of output; the sandbox prints to standard
/// output only.
pub fn stdout_event(text: String) -> (e: ChildEvent)
    ensures
        e == ChildEvent::plain(EventKind::Print { stream: PrintStream::Stdout, text }),
{
    event(EventKind::Print { stream: PrintStream::Stdout, text })
}

/// The exception that a print raises when its output cannot be sent.
pub fn print_failure(err: &str) -> (r: RaisedException)
    ensures
        r.says(ExcType::RuntimeError, "failed to stream print output: "@ + err@),
{
    RaisedException::new(ExcType::RuntimeError, cat2("failed to stream print output: ", err))
}

/// Nothing that is written gets lost, doubled or reordered, and no piece that
/// is handed on is empty or longer than the threshold.
pub proof fn law_output_is_handed_on_whole(buf: Seq<char>, output: Seq<char>)
    requires
        !flush_due(buf),
    ensures
        concat_all(written(buf, output).0) + written(buf, output).1 == buf + output,
        forall|i: int|
            0 <= i < written(buf, output).0.len() ==> 0 < utf8_len(#[trigger] written(buf, output).0[i])
                <= FLUSH_BYTES,
        !flush_due(written(buf, output).1),
    decreases output.len(), buf.len(),
{
    let room = (FLUSH_BYTES - utf8_len(buf)) as nat;
    let n = taken(buf, output) as int;
    let filled = buf + output.take(n);
    lemma_fitting(output, room);
    lemma_utf8_len_concat(buf, output.take(n));
    assert(output =~= output.take(n) + output.skip(n));
    let (pieces, left) = written(buf, output);
    if output.len() == 0 {
        assert(concat_all(pieces) + left =~= buf + output);
    } else if filled.len() == 0 {
        assert(buf =~= Seq::<char>::empty());
        lemma_first_char_fits(output);
        assert(false);
    } else if n == 0 || flush_due(filled) {
        let (rest_pieces, _) = written(Seq::empty(), output.skip(n));
        assert(output.skip(0) =~= output);
        law_output_is_handed_on_whole(Seq::empty(), output.skip(n));
        lemma_concat_front(filled, rest_pieces);
        lemma_nonempty_utf8_len(filled);
        assert(concat_all(pieces) + left =~= filled + (concat_all(rest_pieces) + left));
        assert(filled + (Seq::<char>::empty() + output.skip(n)) =~= buf + output);
        assert forall|i: int| 0 <= i < pieces.len() implies 0 < utf8_len(#[trigger] pieces[i]) <= FLUSH_BYTES by {
            if i > 0 {
                assert(pieces[i] == rest_pieces[i - 1]);
            }
        }
    } else {
        law_output_is_handed_on_whole(filled, output.skip(n));
        assert(filled + output.skip(n) =~= buf + output);
    }
}

proof fn lemma_concat_push(parts: Seq<Seq<char>>, t: Seq<char>)
    ensures
        concat_all(parts.push(t)) == concat_all(parts) + t,
{
    assert(parts.push(t).drop_last() =~= parts);
    if parts.len() == 0 {
        assert(concat_all(parts) + t =~= t);
    } else {
        assert(concat_all(parts.push(t)) =~= concat_all(parts) + t);
    }
}

proof fn lemma_concat_front(t: Seq<char>, parts: Seq<Seq<char>>)
    ensures
        concat_all(seq![t] + parts) == t + concat_all(parts),
    decreases parts.len(),
{
    if parts.len() == 0 {
        assert(seq![t] + parts =~= seq![t]);
        assert(t + concat_all(parts) =~= t);
    } else {
        lemma_concat_front(t, parts.drop_last());
        lemma_concat_push(parts.drop_last(), parts.last());
        assert(parts.drop_last().push(parts.last()) =~= parts);
        lemma_concat_push(seq![t] + parts.drop_last(), parts.last());
        assert((seq![t] + parts.drop_last()).push(parts.last()) =~= seq![t] + parts);
        assert(concat_all(seq![t] + parts) =~= t + concat_all(parts));
    }
}

/// As many characters as fit do fit, and one more does not.
proof fn lemma_fitting(s: Seq<char>, room: nat)
    ensures
        fitting(s, room) <= s.len(),
        utf8_len(s.take(fitting(s, room) as int)) <= room,
        fitting(s, room) < s.len() ==> utf8_len(s.take(fitting(s, room) as int + 1)) > room,
    decreases s.len(),
{
    let f = fitting(s, room);
    if s.len() > 0 && utf8_len(s.take(1)) <= room {
        let rest = s.skip(1);
        let left = (room - utf8_len(s.take(1))) as nat;
        lemma_fitting(rest, left);
        assert(s.take(f as int) =~= s.take(1) + rest.take(f as int - 1));
        lemma_utf8_len_concat(s.take(1), rest.take(f as int - 1));
        if f < s.len() {
            assert(s.take(f as int + 1) =~= s.take(1) + rest.take(f as int));
            lemma_utf8_len_concat(s.take(1), rest.take(f as int));
        }
    } else {
        assert(s.take(0) =~= Seq::<char>::empty());
    }
}

/// A single character always fits an empty buffer.
proof fn lemma_first_char_fits(s: Seq<char>)
    requires
        s.len() > 0,
    ensures
        taken(Seq::empty(), s) > 0,
{
    let first = s.take(1);
    vstd::utf8::encode_utf8_first_scalar(first);
    assert(first.drop_first() =~= Seq::<char>::empty());
    assert(utf8_len(Seq::<char>::empty()) == 0);
    assert(encode_utf8(first) == vstd::utf8::encode_scalar(first[0] as u32) + encode_utf8(first.drop_first()));
}

/// A longer prefix takes more bytes.
proof fn lemma_prefix_grows(s: Seq<char>, i: int, j: int)
    requires
        0 <= i < j <= s.len(),
    ensures
        utf8_len(s.take(i)) < utf8_len(s.take(j)),
{
    assert(s.take(j) =~= s.take(i) + s.subrange(i, j));
    lemma_utf8_len_concat(s.take(i), s.subrange(i, j));
    lemma_nonempty_utf8_len(s.subrange(i, j));
}

/// The end of each character is a char boundary.
proof fn lemma_prefix_boundary(s: Seq<char>, k: int)
    requires
        0 <= k <= s.len(),
    ensures
        is_char_boundary(encode_utf8(s), utf8_len(s.take(k)) as int),
    decreases k,
{
    encode_utf8_valid_utf8(s);
    if k == 0 {
        assert(s.take(0) =~= Seq::<char>::empty());
        is_char_boundary_start_end_of_seq(encode_utf8(s));
    } else {
        vstd::utf8::encode_utf8_first_scalar(s);
        lemma_prefix_boundary(s.drop_first(), k - 1);
        assert(vstd::utf8::pop_first_scalar(encode_utf8(s)) =~= encode_utf8(s.drop_first()));
        assert(s.take(k).drop_first() =~= s.drop_first().take(k - 1));
        assert(s.take(k) + s.skip(k) =~= s);
        lemma_utf8_len_concat(s.take(k), s.skip(k));
    }
}

/// A prefix that ends at the last boundary within `room` holds as many
/// characters as fit.
proof fn lemma_piece(rest: Seq<char>, room: nat, piece: Seq<char>, tail: Seq<char>)
    requires
        rest == piece + tail,
        is_floor_boundary(rest, room, utf8_len(piece)),
    ensures
        piece == rest.take(fitting(rest, room) as int),
        piece.len() == fitting(rest, room),
{
    let f = fitting(rest, room) as int;
    let n = piece.len() as int;
    lemma_fitting(rest, room);
    assert(rest.take(n) =~= piece);
    if n < f {
        lemma_prefix_grows(rest, n, f);
        lemma_prefix_boundary(rest, f);
        assert(rest.take(f) + rest.skip(f) =~= rest);
        lemma_utf8_len_concat(rest.take(f), rest.skip(f));
    } else if n > f {
        if n > f + 1 {
            lemma_prefix_grows(rest, f + 1, n);
        }
    }
}

/// The UTF-8 length of a concatenation is the sum of the lengths.
pub proof fn lemma_utf8_len_concat(a: Seq<char>, b: Seq<char>)
    ensures
        utf8_len(a + b) == utf8_len(a) + utf8_len(b),
    decreases a.len(),
{
    if a.len() == 0 {
        assert(a + b =~= b);
    } else {
        assert((a + b).drop_first() =~= a.drop_first() + b);
        lemma_utf8_len_concat(a.drop_first(), b);
    }
}

proof fn lemma_nonempty_utf8_len(s: Seq<char>)
    ensures
        s.len() > 0 ==> utf8_len(s) > 0,
{
}

proof fn lemma_empty_of_utf8_len(s: Seq<char>)
    requires
        utf8_len(s) == 0,
    ensures
        s =~= Seq::<char>::empty(),
{
    lemma_nonempty_utf8_len(s);
}

/// The end of the first character is a boundary within four bytes.
proof fn lemma_first_char_boundary(s: Seq<char>)
    requires
        s.len() > 0,
    ensures
        exists|k: int| 0 < k <= 4 && k <= utf8_len(s) && #[trigger] is_char_boundary(encode_utf8(s), k),
{
    vstd::utf8::encode_utf8_first_scalar(s);
    encode_utf8_valid_utf8(s);
    let bytes = encode_utf8(s);
    let k = vstd::utf8::length_of_first_scalar(bytes);
    encode_utf8_valid_utf8(s.drop_first());
    assert(is_char_boundary(vstd::utf8::pop_first_scalar(bytes), 0));
    assert(is_char_boundary(bytes, k));
}

/// A piece is handed on only when it is due: more text follows it that it has
/// no room for, or it is the last of what was written and ends a line or is
/// full.
pub proof fn law_pieces_are_handed_on_when_due(buf: Seq<char>, output: Seq<char>, i: int)
    requires
        !flush_due(buf),
        0 <= i < written(buf, output).0.len(),
    ensures
        ({
            let (pieces, left) = written(buf, output);
            let next = concat_all(pieces.skip(i + 1)) + left;
            &&& next.len() > 0 ==> utf8_len(pieces[i] + next.take(1)) > 8192
            &&& next.len() == 0 ==> pieces[i].last() == '\n' || utf8_len(pieces[i]) >= 8192
        }),
    decreases output.len(), buf.len(),
{
    let room = (FLUSH_BYTES - utf8_len(buf)) as nat;
    let n = taken(buf, output) as int;
    let filled = buf + output.take(n);
    lemma_fitting(output, room);
    let (pieces, left) = written(buf, output);
    if output.len() == 0 {
    } else if filled.len() == 0 {
    } else if n == 0 || flush_due(filled) {
        let rest = output.skip(n);
        let (rest_pieces, rest_left) = written(Seq::empty(), rest);
        assert(pieces == seq![filled] + rest_pieces);
        assert(left == rest_left);
        if i > 0 {
            law_pieces_are_handed_on_when_due(Seq::empty(), rest, i - 1);
            assert(pieces.skip(i + 1) =~= rest_pieces.skip(i));
        } else {
            assert(pieces.skip(1) =~= rest_pieces);
            law_output_is_handed_on_whole(Seq::empty(), rest);
            let next = concat_all(rest_pieces) + rest_left;
            assert(next =~= rest);
            if n == 0 {
                assert(output.skip(0) =~= output);
                assert(output.take(0) =~= Seq::<char>::empty());
                assert(filled =~= buf);
                assert(next.take(1) == output.take(1));
                lemma_utf8_len_concat(buf, output.take(1));
            } else if n < output.len() {
                assert(output.take(n + 1) =~= output.take(n) + next.take(1));
                assert(filled + next.take(1) =~= buf + output.take(n + 1));
                lemma_utf8_len_concat(buf, output.take(n + 1));
            }
        }
    } else {
        law_pieces_are_handed_on_when_due(filled, output.skip(n), i);
    }
}

/// A partial line that stays under the threshold is kept whole; nothing of it
/// is handed on before its end comes.
pub proof fn law_short_partial_lines_are_kept(buf: Seq<char>, output: Seq<char>)
    requires
        !flush_due(buf),
        utf8_len(buf + output) < 8192,
        (buf + output).len() > 0 ==> (buf + output).last() != '\n',
    ensures
        written(buf, output).0.len() == 0,
        written(buf, output).1 == buf + output,
{
    let room = (FLUSH_BYTES - utf8_len(buf)) as nat;
    let n = taken(buf, output) as int;
    let filled = buf + output.take(n);
    lemma_fitting(output, room);
    lemma_utf8_len_concat(buf, output);
    if output.len() == 0 {
        assert(buf + output =~= buf);
    } else {
        if n < output.len() {
            assert(output =~= output.take(n + 1) + output.skip(n + 1));
            lemma_utf8_len_concat(output.take(n + 1), output.skip(n + 1));
        }
        assert(output.take(n) =~= output);
        assert(output.skip(n) =~= Seq::<char>::empty());
        assert(n > 0);
        assert(filled == buf + output);
        assert(written(filled, Seq::empty()) == (Seq::<Seq<char>>::empty(), filled));
    }
}

/// Output that ends a line leaves nothing behind.
pub proof fn law_whole_lines_are_handed_on(buf: Seq<char>, output: Seq<char>)
    requires
        !flush_due(buf),
        output.len() > 0,
        output.last() == '\n',
    ensures
        written(buf, output).1.len() == 0,
        concat_all(written(buf, output).0) == buf + output,
{
    law_output_is_handed_on_whole(buf, output);
    let (pieces, left) = written(buf, output);
    let all = buf + output;
    assert(all.last() == '\n');
    assert(concat_all(pieces) + left == all);
    if left.len() > 0 {
        assert((concat_all(pieces) + left).last() == left.last());
    } else {
        assert(concat_all(pieces) + left =~= concat_all(pieces));
    }
}

} // verus!
