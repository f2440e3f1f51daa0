//! Streaming UTF-8 decoder for terminal output.
//!
//! PTY output arrives in fixed-size chunks, so a multi-byte code point
//! (emoji, box-drawing glyph, CJK character) can be split across two reads.
//! The decoder buffers an incomplete trailing sequence and prepends it to the
//! next chunk, so that the concatenation of its outputs equals the decoding
//! of the concatenated input, with each undecodable byte replaced by one
//! U+FFFD and the scan resuming at the following byte.
//!
//! The intended behaviour is captured by the spec functions [`stream_out`]
//! and [`stream_keep`]; the laws at the bottom of the module state that
//! feeding the bytes in any chunking produces the same total output, and
//! that a complete well-formed input decodes exactly and leaves the buffer
//! empty.

use vstd::prelude::*;
use vstd::utf8::{
    codepoint_width_2, codepoint_width_3, codepoint_width_4, decode_first_scalar, decode_utf8,
    is_continuation_byte, is_scalar, length_of_first_scalar, pop_first_scalar, valid_first_scalar,
    valid_utf8,
};

verus! {

/// The Unicode replacement character emitted for each undecodable byte.
pub open spec fn replacement_char() -> char {
    '\u{fffd}'
}

/// True when the single byte `b` can begin a multi-byte scalar encoding that
/// some continuation bytes would complete.  Excludes `0xC0`/`0xC1` (always
/// overlong) and `0xF5..=0xF7` (always beyond U+10FFFF).
pub open spec fn can_begin_long(b: u8) -> bool {
    (0xc2 <= b <= 0xdf) || (0xe0 <= b <= 0xef) || (0xf0 <= b <= 0xf4)
}

/// True when `b0 b1` are the first two bytes of some completable 3- or
/// 4-byte scalar encoding: the second byte must be a continuation byte and
/// must not force an overlong, surrogate, or out-of-range value.
pub open spec fn can_continue_two(b0: u8, b1: u8) -> bool {
    &&& is_continuation_byte(b1)
    &&& ((0xe0 <= b0 <= 0xef && (b0 == 0xe0 ==> b1 >= 0xa0) && (b0 == 0xed ==> b1 <= 0x9f)) || (
    0xf0 <= b0 <= 0xf4 && (b0 == 0xf0 ==> b1 >= 0x90) && (b0 == 0xf4 ==> b1 <= 0x8f)))
}

/// True when `s` is a proper prefix of some valid scalar encoding, so that
/// bytes from the next chunk could complete it.  Such a fragment is buffered
/// rather than replaced.
pub open spec fn could_extend(s: Seq<u8>) -> bool {
    ||| (s.len() == 1 && can_begin_long(s[0]))
    ||| (s.len() == 2 && can_continue_two(s[0], s[1]))
    ||| (s.len() == 3 && 0xf0 <= s[0] <= 0xf4 && can_continue_two(s[0], s[1])
        && is_continuation_byte(s[2]))
}

/// The characters the decoder emits when `data` is all the input it will
/// ever see before the next chunk: valid scalars decode, undecodable bytes
/// become one replacement character each, and a completable trailing
/// fragment produces nothing (it is kept instead).
pub open spec fn stream_out(data: Seq<u8>) -> Seq<char>
    decreases data.len(),
{
    if data.len() == 0 {
        Seq::<char>::empty()
    } else if valid_first_scalar(data) {
        seq![decode_first_scalar(data) as char] + stream_out(pop_first_scalar(data))
    } else if could_extend(data) {
        Seq::<char>::empty()
    } else {
        seq![replacement_char()] + stream_out(data.skip(1))
    }
}

/// The bytes the decoder keeps buffered after consuming `data`: the
/// completable trailing fragment, or nothing.
pub open spec fn stream_keep(data: Seq<u8>) -> Seq<u8>
    decreases data.len(),
{
    if data.len() == 0 {
        Seq::<u8>::empty()
    } else if valid_first_scalar(data) {
        stream_keep(pop_first_scalar(data))
    } else if could_extend(data) {
        data
    } else {
        stream_keep(data.skip(1))
    }
}

/// Decoding with replacement of a byte sequence taken as complete: like
/// [`stream_out`], but a trailing fragment is undecodable rather than kept.
pub open spec fn decode_replace(data: Seq<u8>) -> Seq<char>
    decreases data.len(),
{
    if data.len() == 0 {
        Seq::<char>::empty()
    } else if valid_first_scalar(data) {
        seq![decode_first_scalar(data) as char] + decode_replace(pop_first_scalar(data))
    } else {
        seq![replacement_char()] + decode_replace(data.skip(1))
    }
}

/// A fragment that could be completed is never itself a whole valid scalar.
proof fn lemma_could_extend_not_valid(s: Seq<u8>)
    requires
        could_extend(s),
    ensures
        !valid_first_scalar(s),
{
}

/// A whole valid scalar at the head survives appending more bytes, with the
/// same length and value.
proof fn lemma_valid_first_scalar_extend(s: Seq<u8>, t: Seq<u8>)
    requires
        valid_first_scalar(s),
    ensures
        valid_first_scalar(s + t),
        length_of_first_scalar(s + t) == length_of_first_scalar(s),
        decode_first_scalar(s + t) == decode_first_scalar(s),
{
    assert(forall|i: int| 0 <= i < s.len() ==> (s + t)[i] == s[i]);
}

/// A byte sequence that neither starts with a valid scalar nor could be
/// completed by later bytes stays undecodable however it is extended.
proof fn lemma_dead_end(s: Seq<u8>, t: Seq<u8>)
    requires
        s.len() > 0,
        !valid_first_scalar(s),
        !could_extend(s),
    ensures
        !valid_first_scalar(s + t),
{
    let u = s + t;
    assert(forall|i: int| 0 <= i < s.len() ==> u[i] == s[i]);
    if valid_first_scalar(u) {
        let w = length_of_first_scalar(u);
        if w <= s.len() {
            // the whole scalar already lies inside `s`
            assert(valid_first_scalar(s));
        } else {
            // `s` is a proper prefix of the scalar: show it was completable
            let b0 = s[0];
            if s.len() == 1 {
                if 0xc0 <= b0 <= 0xdf {
                    let b1 = u[1];
                    assert(is_continuation_byte(b1));
                    assert(codepoint_width_2(b0, b1) >= 0x80);
                    assert(b0 >= 0xc2) by (bit_vector)
                        requires
                            0xc0 <= b0 <= 0xdf,
                            0x80 <= b1 <= 0xbf,
                            ((((b0 & 0x1F) as u32) << 6) | ((b1 & 0x3f) as u32)) >= 0x80,
                    ;
                    assert(can_begin_long(b0));
                } else if 0xe0 <= b0 <= 0xef {
                    assert(can_begin_long(b0));
                } else {
                    let b1 = u[1];
                    let b2 = u[2];
                    let b3 = u[3];
                    assert(0xf0 <= b0 <= 0xf7);
                    assert(codepoint_width_4(b0, b1, b2, b3) <= 0x10ffff);
                    assert(b0 <= 0xf4) by (bit_vector)
                        requires
                            0xf0 <= b0 <= 0xf7,
                            (((((b0 & 0x07) as u32) << 18) | (((b1 & 0x3f) as u32) << 12) | (((b2
                                & 0x3f) as u32) << 6) | ((b3 & 0x3f) as u32))) <= 0x10ffff,
                    ;
                    assert(can_begin_long(b0));
                }
                assert(could_extend(s));
            } else if s.len() == 2 {
                let b1 = s[1];
                assert(is_continuation_byte(b1));
                if 0xe0 <= b0 <= 0xef {
                    let b2 = u[2];
                    let cp = codepoint_width_3(b0, b1, b2);
                    assert(cp >= 0x800 && !(0xd800 <= cp <= 0xdfff));
                    assert((b0 == 0xe0 ==> b1 >= 0xa0) && (b0 == 0xed ==> b1 <= 0x9f))
                        by (bit_vector)
                        requires
                            0xe0 <= b0 <= 0xef,
                            0x80 <= b1 <= 0xbf,
                            0x80 <= b2 <= 0xbf,
                            ((((b0 & 0x0f) as u32) << 12) | (((b1 & 0x3f) as u32) << 6) | ((b2
                                & 0x3f) as u32)) >= 0x800,
                            !(0xd800 <= ((((b0 & 0x0f) as u32) << 12) | (((b1 & 0x3f) as u32) << 6)
                                | ((b2 & 0x3f) as u32)) <= 0xdfff),
                    ;
                    assert(can_continue_two(b0, b1));
                } else {
                    assert(0xf0 <= b0 <= 0xf7);
                    let b2 = u[2];
                    let b3 = u[3];
                    let cp = codepoint_width_4(b0, b1, b2, b3);
                    assert(0x10000 <= cp <= 0x10ffff);
                    assert(0xf0 <= b0 <= 0xf4 && (b0 == 0xf0 ==> b1 >= 0x90) && (b0 == 0xf4 ==> b1
                        <= 0x8f)) by (bit_vector)
                        requires
                            0xf0 <= b0 <= 0xf7,
                            0x80 <= b1 <= 0xbf,
                            0x80 <= b2 <= 0xbf,
                            0x80 <= b3 <= 0xbf,
                            0x10000 <= (((((b0 & 0x07) as u32) << 18) | (((b1 & 0x3f) as u32) << 12)
                                | (((b2 & 0x3f) as u32) << 6) | ((b3 & 0x3f) as u32)))
                                <= 0x10ffff,
                    ;
                    assert(can_continue_two(b0, b1));
                }
                assert(could_extend(s));
            } else {
                // s.len() == 3 and the scalar needs 4 bytes
                assert(s.len() == 3);
                assert(0xf0 <= b0 <= 0xf7);
                let b1 = s[1];
                let b2 = s[2];
                let b3 = u[3];
                assert(is_continuation_byte(b1) && is_continuation_byte(b2));
                let cp = codepoint_width_4(b0, b1, b2, b3);
                assert(0x10000 <= cp <= 0x10ffff);
                assert(0xf0 <= b0 <= 0xf4 && (b0 == 0xf0 ==> b1 >= 0x90) && (b0 == 0xf4 ==> b1
                    <= 0x8f)) by (bit_vector)
                    requires
                        0xf0 <= b0 <= 0xf7,
                        0x80 <= b1 <= 0xbf,
                        0x80 <= b2 <= 0xbf,
                        0x80 <= b3 <= 0xbf,
                        0x10000 <= (((((b0 & 0x07) as u32) << 18) | (((b1 & 0x3f) as u32) << 12) | (
                        ((b2 & 0x3f) as u32) << 6) | ((b3 & 0x3f) as u32))) <= 0x10ffff,
                ;
                assert(could_extend(s));
            }
        }
    }
}

/// A kept buffer is quiescent: running the decoder on it alone emits nothing
/// and keeps it unchanged.
proof fn lemma_keep_fixed(data: Seq<u8>)
    ensures
        stream_out(stream_keep(data)) == Seq::<char>::empty(),
        stream_keep(stream_keep(data)) == stream_keep(data),
    decreases data.len(),
{
    if data.len() == 0 {
    } else if valid_first_scalar(data) {
        lemma_keep_fixed(pop_first_scalar(data));
    } else if could_extend(data) {
        lemma_could_extend_not_valid(data);
    } else {
        lemma_keep_fixed(data.skip(1));
    }
}

/// Chunking law: feeding `a` and then `b` (with the kept fragment of `a`
/// prepended) produces the same output and final buffer as feeding `a + b`
/// at once.  This is the invariant that makes the decoder insensitive to
/// how the byte stream is split into reads.
pub proof fn lemma_stream_compose(a: Seq<u8>, b: Seq<u8>)
    ensures
        stream_out(a + b) == stream_out(a) + stream_out(stream_keep(a) + b),
        stream_keep(a + b) == stream_keep(stream_keep(a) + b),
    decreases a.len(),
{
    if b.len() == 0 {
        assert(a + b =~= a);
        assert(stream_keep(a) + b =~= stream_keep(a));
        lemma_keep_fixed(a);
        assert(stream_out(a) + stream_out(stream_keep(a)) =~= stream_out(a));
    } else if a.len() == 0 {
        assert(a + b =~= b);
        assert(stream_keep(a) =~= Seq::<u8>::empty());
        assert(stream_keep(a) + b =~= b);
        assert(stream_out(a) + stream_out(b) =~= stream_out(b));
    } else if valid_first_scalar(a) {
        let w = length_of_first_scalar(a);
        lemma_valid_first_scalar_extend(a, b);
        assert(pop_first_scalar(a + b) =~= pop_first_scalar(a) + b);
        lemma_stream_compose(pop_first_scalar(a), b);
        assert(stream_out(a + b) =~= stream_out(a) + stream_out(stream_keep(a) + b));
    } else if could_extend(a) {
        lemma_could_extend_not_valid(a);
        assert(stream_keep(a) == a);
        assert(stream_out(a) + stream_out(a + b) =~= stream_out(a + b));
    } else {
        lemma_dead_end(a, b);
        // `a + b` can be a completable fragment only if its prefix `a` is one
        if could_extend(a + b) {
            assert((a + b).len() <= 3);
            assert(forall|i: int| 0 <= i < a.len() ==> (a + b)[i] == a[i]);
            assert(could_extend(a));
        }
        assert((a + b).skip(1) =~= a.skip(1) + b);
        lemma_stream_compose(a.skip(1), b);
        assert(stream_out(a + b) =~= stream_out(a) + stream_out(stream_keep(a) + b));
    }
}

/// On complete well-formed input the decoder emits exactly the UTF-8
/// decoding and buffers nothing.
pub proof fn lemma_stream_complete(data: Seq<u8>)
    requires
        valid_utf8(data),
    ensures
        stream_out(data) == decode_utf8(data),
        stream_keep(data) == Seq::<u8>::empty(),
    decreases data.len(),
{
    if data.len() == 0 {
    } else {
        lemma_stream_complete(pop_first_scalar(data));
    }
}

/// The decoder's output is the replacement decoding of everything it has
/// consumed: what is still buffered accounts exactly for the difference.
pub proof fn lemma_stream_replace(data: Seq<u8>)
    ensures
        decode_replace(data) == stream_out(data) + decode_replace(stream_keep(data)),
    decreases data.len(),
{
    if data.len() == 0 {
        assert(stream_out(data) + decode_replace(stream_keep(data)) =~= Seq::<char>::empty());
    } else if valid_first_scalar(data) {
        lemma_stream_replace(pop_first_scalar(data));
        assert(decode_replace(data) =~= stream_out(data) + decode_replace(stream_keep(data)));
    } else if could_extend(data) {
        lemma_could_extend_not_valid(data);
        assert(stream_out(data) + decode_replace(stream_keep(data)) =~= decode_replace(data));
    } else {
        lemma_stream_replace(data.skip(1));
        assert(decode_replace(data) =~= stream_out(data) + decode_replace(stream_keep(data)));
    }
}

/// What the decoder keeps is a short suffix of the input, and it is a
/// completable fragment (or nothing).
proof fn lemma_keep_props(data: Seq<u8>)
    ensures
        stream_keep(data).len() <= 3,
        stream_keep(data).len() <= data.len(),
        stream_keep(data) == data.skip(data.len() - stream_keep(data).len()),
        stream_keep(data).len() > 0 ==> could_extend(stream_keep(data)),
    decreases data.len(),
{
    if data.len() == 0 {
        assert(stream_keep(data) =~= data.skip(0));
    } else if valid_first_scalar(data) {
        lemma_keep_props(pop_first_scalar(data));
        let k = stream_keep(data).len();
        assert(pop_first_scalar(data).skip(pop_first_scalar(data).len() - k) =~= data.skip(
            data.len() - k,
        ));
    } else if could_extend(data) {
        assert(stream_keep(data) =~= data.skip(0));
    } else {
        lemma_keep_props(data.skip(1));
        let k = stream_keep(data).len();
        assert(data.skip(1).skip(data.skip(1).len() - k) =~= data.skip(data.len() - k));
    }
}

/// A completable fragment begins with a leading byte and continues with
/// continuation bytes, so two distinct positions cannot both start one.
proof fn lemma_could_extend_unique(data: Seq<u8>, i: int, j: int)
    requires
        0 <= i < j < data.len(),
        could_extend(data.skip(i)),
    ensures
        !could_extend(data.skip(j)),
{
    let s = data.skip(i);
    assert(data.skip(j)[0] == s[j - i]);
    assert(is_continuation_byte(s[j - i]));
}

/// If the decoder can reach a completable trailing fragment, it keeps
/// exactly that fragment.
proof fn lemma_keep_reaches(data: Seq<u8>, p: int)
    requires
        0 <= p < data.len(),
        could_extend(data.skip(p)),
    ensures
        stream_keep(data) == data.skip(p),
    decreases data.len(),
{
    if p == 0 {
        lemma_could_extend_not_valid(data.skip(0));
        assert(data.skip(0) =~= data);
    } else if valid_first_scalar(data) {
        let w = length_of_first_scalar(data);
        // the scalar cannot cross the fragment start: the fragment starts
        // with a leading byte, while bytes inside a scalar are continuations
        assert(w <= p) by {
            if w > p {
                assert(is_continuation_byte(data[p]));
                assert(data.skip(p)[0] == data[p]);
                assert(false);
            }
        }
        assert(pop_first_scalar(data).skip(p - w) =~= data.skip(p));
        lemma_keep_reaches(pop_first_scalar(data), p - w);
    } else if could_extend(data) {
        // a fragment covering all of `data` has continuation bytes
        // everywhere after position 0, contradicting the leading byte at `p`
        assert(data.skip(p)[0] == data[p]);
        assert(is_continuation_byte(data[p]));
        assert(!could_extend(data.skip(p)));
        assert(false);
    } else {
        assert(data.skip(1).skip(p - 1) =~= data.skip(p));
        lemma_keep_reaches(data.skip(1), p - 1);
    }
}

/// The concatenation of a sequence of byte chunks.
pub open spec fn flatten_chunks(chunks: Seq<Seq<u8>>) -> Seq<u8>
    decreases chunks.len(),
{
    if chunks.len() == 0 {
        Seq::<u8>::empty()
    } else {
        chunks[0] + flatten_chunks(chunks.drop_first())
    }
}

/// Everything a decoder whose buffer holds `pending` emits when fed the
/// chunks one call at a time.
pub open spec fn run_out(pending: Seq<u8>, chunks: Seq<Seq<u8>>) -> Seq<char>
    decreases chunks.len(),
{
    if chunks.len() == 0 {
        Seq::<char>::empty()
    } else {
        stream_out(pending + chunks[0]) + run_out(
            stream_keep(pending + chunks[0]),
            chunks.drop_first(),
        )
    }
}

/// The decoder's buffer after being fed the chunks one call at a time,
/// starting from a buffer holding `pending`.
pub open spec fn run_keep(pending: Seq<u8>, chunks: Seq<Seq<u8>>) -> Seq<u8>
    decreases chunks.len(),
{
    if chunks.len() == 0 {
        pending
    } else {
        run_keep(stream_keep(pending + chunks[0]), chunks.drop_first())
    }
}

/// Splitting the byte stream into chunks does not change what is decoded:
/// a quiescent decoder fed the chunks one call at a time emits, in total,
/// exactly what one call on the concatenation would, and ends in the same
/// buffer state.  (A freshly created decoder is quiescent, and so is a
/// decoder after any number of calls.)
pub proof fn lemma_chunked_run(pending: Seq<u8>, chunks: Seq<Seq<u8>>)
    requires
        stream_out(pending) == Seq::<char>::empty(),
        stream_keep(pending) == pending,
    ensures
        run_out(pending, chunks) == stream_out(pending + flatten_chunks(chunks)),
        run_keep(pending, chunks) == stream_keep(pending + flatten_chunks(chunks)),
    decreases chunks.len(),
{
    if chunks.len() == 0 {
        assert(pending + flatten_chunks(chunks) =~= pending);
        assert(run_out(pending, chunks) =~= stream_out(pending));
    } else {
        let first = chunks[0];
        let rest = chunks.drop_first();
        let after = stream_keep(pending + first);
        lemma_keep_fixed(pending + first);
        lemma_chunked_run(after, rest);
        lemma_stream_compose(pending + first, flatten_chunks(rest));
        assert((pending + first) + flatten_chunks(rest) =~= pending + flatten_chunks(chunks));
    }
}

/// For a complete well-formed byte stream, a fresh decoder fed the stream
/// in arbitrary chunks emits exactly its UTF-8 decoding and ends with an
/// empty buffer.
pub proof fn lemma_chunked_run_wellformed(chunks: Seq<Seq<u8>>)
    requires
        valid_utf8(flatten_chunks(chunks)),
    ensures
        run_out(Seq::<u8>::empty(), chunks) == decode_utf8(flatten_chunks(chunks)),
        run_keep(Seq::<u8>::empty(), chunks) == Seq::<u8>::empty(),
{
    let e = Seq::<u8>::empty();
    lemma_chunked_run(e, chunks);
    assert(e + flatten_chunks(chunks) =~= flatten_chunks(chunks));
    lemma_stream_complete(flatten_chunks(chunks));
}

/// Relies on char::from_u32: every Unicode scalar value converts to the
/// corresponding `char`.
#[verifier::external_body]
fn char_from_scalar(v: u32) -> (c: char)
    requires
        is_scalar(v),
    ensures
        c == v as char,
        c as u32 == v,
{
    match char::from_u32(v) {
        Some(c) => c,
        None => ' ',  // unreachable under the precondition
    }
}

/// Stateful UTF-8 decoder that carries an incomplete trailing sequence from
/// one chunk to the next.
pub struct Utf8Decoder {
    /// Buffered proper prefix of a scalar encoding (at most 3 bytes).
    incomplete: Vec<u8>,
}

impl Utf8Decoder {
    /// The buffered fragment, as the model of the decoder's state.
    pub closed spec fn pending(&self) -> Seq<u8> {
        self.incomplete@
    }

    /// Creates a decoder with an empty buffer.
    pub fn new() -> (d: Self)
        ensures
            d.pending() == Seq::<u8>::empty(),
    {
        Utf8Decoder { incomplete: Vec::new() }
    }

    /// Decodes `input` prefixed by the buffered fragment, emitting decoded
    /// characters and one replacement character per undecodable byte, and
    /// buffering a completable trailing fragment for the next call.
    pub fn decode(&mut self, input: &[u8]) -> (r: String)
        ensures
            r@ == stream_out(old(self).pending() + input@),
            final(self).pending() == stream_keep(old(self).pending() + input@),
    {
        let ghost full = old(self).pending() + input@;
        let mut data: Vec<u8> = Vec::new();
        let mut j: usize = 0;
        while j < self.incomplete.len()
            invariant
                j <= self.incomplete.len(),
                self.incomplete@ == old(self).pending(),
                data@ == old(self).pending().take(j as int),
            decreases self.incomplete.len() - j,
        {
            data.push(self.incomplete[j]);
            j += 1;
            proof {
                assert(data@ =~= old(self).pending().take(j as int));
            }
        }
        proof {
            assert(data@ =~= old(self).pending());
        }
        let mut j: usize = 0;
        while j < input.len()
            invariant
                j <= input.len(),
                data@ == old(self).pending() + input@.take(j as int),
            decreases input.len() - j,
        {
            data.push(input[j]);
            j += 1;
            proof {
                assert(data@ =~= old(self).pending() + input@.take(j as int));
            }
        }
        proof {
            assert(data@ =~= full);
        }
        self.incomplete = Vec::new();

        let n = data.len();
        let mut out = String::new();
        let mut i: usize = 0;
        proof {
            assert(full.skip(0) =~= full);
            assert(out@ + stream_out(full) =~= stream_out(full));
        }
        while i < n
            invariant_except_break
                i <= n,
                n == full.len(),
                data@ == full,
                self.incomplete@ == Seq::<u8>::empty(),
                stream_out(full) == out@ + stream_out(full.skip(i as int)),
                stream_keep(full) == stream_keep(full.skip(i as int)),
            ensures
                out@ == stream_out(full),
                self.incomplete@ == stream_keep(full),
            decreases n - i,
        {
            let ghost rem = full.skip(i as int);
            let b0 = data[i];
            proof {
                assert(rem[0] == full[i as int]);
            }
            // how many bytes would the leading byte need, and are they here?
            let (consumed, decoded): (usize, Option<u32>) = if b0 < 0x80 {
                proof {
                    assert((b0 & 0x7f) == b0) by (bit_vector)
                        requires
                            b0 < 0x80,
                    ;
                    assert(valid_first_scalar(rem));
                    assert(length_of_first_scalar(rem) == 1);
                    assert(decode_first_scalar(rem) == b0 as u32);
                }
                (1, Some(b0 as u32))
            } else if b0 < 0xc2 {
                // continuation byte, or an always-overlong lead (0xC0/0xC1)
                proof {
                    if valid_first_scalar(rem) {
                        assert(0xc0 <= b0 <= 0xc1);
                        let b1 = rem[1];
                        assert(is_continuation_byte(b1));
                        assert(codepoint_width_2(b0, b1) >= 0x80);
                        assert(false) by (bit_vector)
                            requires
                                0xc0 <= b0 <= 0xc1,
                                0x80 <= b1 <= 0xbf,
                                ((((b0 & 0x1f) as u32) << 6u32) | ((b1 & 0x3f) as u32)) >= 0x80,
                        ;
                    }
                }
                (1, None)
            } else if b0 < 0xe0 {
                if n - i >= 2 {
                    let b1 = data[i + 1];
                    proof {
                        assert(rem[1] == full[i + 1]);
                    }
                    if 0x80 <= b1 && b1 <= 0xbf {
                        let cp: u32 = (((b0 & 0x1f) as u32) << 6u32) | ((b1 & 0x3f) as u32);
                        proof {
                            assert(cp == codepoint_width_2(b0, b1));
                            assert(cp >= 0x80) by (bit_vector)
                                requires
                                    0xc2 <= b0 < 0xe0,
                                    cp == ((((b0 & 0x1f) as u32) << 6u32) | ((b1 & 0x3f) as u32)),
                            ;
                            assert(cp <= 0x7ff) by (bit_vector)
                                requires
                                    cp == ((((b0 & 0x1f) as u32) << 6u32) | ((b1 & 0x3f) as u32)),
                            ;
                            assert(valid_first_scalar(rem));
                            assert(length_of_first_scalar(rem) == 2);
                            assert(decode_first_scalar(rem) == cp);
                        }
                        (2, Some(cp))
                    } else {
                        (1, None)
                    }
                } else {
                    // lone lead at the end of the data: keep it
                    proof {
                        assert(could_extend(rem));
                        lemma_could_extend_not_valid(rem);
                        lemma_keep_reaches(full, i as int);
                    }
                    let kept = copy_tail(&data, i);
                    self.incomplete = kept;
                    break ;
                }
            } else if b0 < 0xf0 {
                if n - i >= 3 {
                    let b1 = data[i + 1];
                    let b2 = data[i + 2];
                    proof {
                        assert(rem[1] == full[i + 1]);
                        assert(rem[2] == full[i + 2]);
                    }
                    if 0x80 <= b1 && b1 <= 0xbf && 0x80 <= b2 && b2 <= 0xbf {
                        let cp: u32 = (((b0 & 0x0f) as u32) << 12u32) | (((b1 & 0x3f) as u32)
                            << 6u32) | ((b2 & 0x3f) as u32);
                        proof {
                            assert(cp == codepoint_width_3(b0, b1, b2));
                            assert(cp <= 0xffff) by (bit_vector)
                                requires
                                    cp == ((((b0 & 0x0f) as u32) << 12u32) | (((b1
                                        & 0x3f) as u32) << 6u32) | ((b2 & 0x3f) as u32)),
                            ;
                        }
                        if cp >= 0x800 && !(0xd800 <= cp && cp <= 0xdfff) {
                            proof {
                                assert(valid_first_scalar(rem));
                                assert(length_of_first_scalar(rem) == 3);
                                assert(decode_first_scalar(rem) == cp);
                            }
                            (3, Some(cp))
                        } else {
                            (1, None)
                        }
                    } else {
                        (1, None)
                    }
                } else if n - i >= 2 {
                    let b1 = data[i + 1];
                    proof {
                        assert(rem[1] == full[i + 1]);
                    }
                    let keepable = 0x80 <= b1 && b1 <= 0xbf && (b0 != 0xe0 || b1 >= 0xa0) && (b0
                        != 0xed || b1 <= 0x9f);
                    if keepable {
                        proof {
                            assert(could_extend(rem));
                            lemma_could_extend_not_valid(rem);
                            lemma_keep_reaches(full, i as int);
                        }
                        let kept = copy_tail(&data, i);
                        self.incomplete = kept;
                        break ;
                    } else {
                        (1, None)
                    }
                } else {
                    proof {
                        assert(could_extend(rem));
                        lemma_could_extend_not_valid(rem);
                        lemma_keep_reaches(full, i as int);
                    }
                    let kept = copy_tail(&data, i);
                    self.incomplete = kept;
                    break ;
                }
            } else if b0 < 0xf5 {
                if n - i >= 4 {
                    let b1 = data[i + 1];
                    let b2 = data[i + 2];
                    let b3 = data[i + 3];
                    proof {
                        assert(rem[1] == full[i + 1]);
                        assert(rem[2] == full[i + 2]);
                        assert(rem[3] == full[i + 3]);
                    }
                    if 0x80 <= b1 && b1 <= 0xbf && 0x80 <= b2 && b2 <= 0xbf && 0x80 <= b3 && b3
                        <= 0xbf {
                        let cp: u32 = (((b0 & 0x07) as u32) << 18u32) | (((b1 & 0x3f) as u32)
                            << 12u32) | (((b2 & 0x3f) as u32) << 6u32) | ((b3 & 0x3f) as u32);
                        proof {
                            assert(cp == codepoint_width_4(b0, b1, b2, b3));
                        }
                        if 0x10000 <= cp && cp <= 0x10ffff {
                            proof {
                                assert(valid_first_scalar(rem));
                                assert(length_of_first_scalar(rem) == 4);
                                assert(decode_first_scalar(rem) == cp);
                            }
                            (4, Some(cp))
                        } else {
                            (1, None)
                        }
                    } else {
                        (1, None)
                    }
                } else {
                    // up to three bytes left: keep them if they fit a prefix
                    let b1ok = if n - i >= 2 {
                        let b1 = data[i + 1];
                        proof {
                            assert(rem[1] == full[i + 1]);
                        }
                        0x80 <= b1 && b1 <= 0xbf && (b0 != 0xf0 || b1 >= 0x90) && (b0 != 0xf4 || b1
                            <= 0x8f)
                    } else {
                        true
                    };
                    let b2ok = if n - i >= 3 {
                        let b2 = data[i + 2];
                        proof {
                            assert(rem[2] == full[i + 2]);
                        }
                        0x80 <= b2 && b2 <= 0xbf
                    } else {
                        true
                    };
                    if b1ok && b2ok {
                        proof {
                            assert(could_extend(rem));
                            lemma_could_extend_not_valid(rem);
                            lemma_keep_reaches(full, i as int);
                        }
                        let kept = copy_tail(&data, i);
                        self.incomplete = kept;
                        break ;
                    } else {
                        (1, None)
                    }
                }
            } else {
                // 0xF5..=0xFF never begins a scalar in range
                proof {
                    if valid_first_scalar(rem) {
                        assert(0xf5 <= b0 <= 0xf7);
                        let b1 = rem[1];
                        let b2 = rem[2];
                        let b3 = rem[3];
                        assert(is_continuation_byte(b1) && is_continuation_byte(b2)
                            && is_continuation_byte(b3));
                        assert(codepoint_width_4(b0, b1, b2, b3) <= 0x10ffff);
                        assert(false) by (bit_vector)
                            requires
                                0xf5 <= b0 <= 0xf7,
                                ((((b0 & 0x07) as u32) << 18u32) | (((b1 & 0x3f) as u32) << 12u32)
                                    | (((b2 & 0x3f) as u32) << 6u32) | ((b3 & 0x3f) as u32))
                                    <= 0x10ffff,
                        ;
                    }
                }
                (1, None)
            };
            match decoded {
                Some(cp) => {
                    proof {
                        assert(valid_first_scalar(rem));
                        assert(length_of_first_scalar(rem) == consumed as int);
                        assert(decode_first_scalar(rem) == cp);
                        assert(stream_out(rem) == seq![cp as char] + stream_out(
                            rem.skip(consumed as int),
                        ));
                        assert(rem.skip(consumed as int) =~= full.skip(i + consumed));
                    }
                    let c = char_from_scalar(cp);
                    crate::decimal::string_push(&mut out, c);
                    proof {
                        assert(out@ + stream_out(full.skip(i + consumed)) =~= stream_out(full));
                    }
                    i += consumed;
                }
                None => {
                    proof {
                        assert(!valid_first_scalar(rem));
                        assert(!could_extend(rem));
                        assert(stream_out(rem) == seq![replacement_char()] + stream_out(
                            rem.skip(1),
                        ));
                        assert(rem.skip(1) =~= full.skip(i + 1));
                    }
                    crate::decimal::string_push(&mut out, '\u{fffd}');
                    proof {
                        assert(out@ + stream_out(full.skip(i + 1)) =~= stream_out(full));
                    }
                    i += 1;
                }
            }
        }
        out
    }

    /// The index up to which `data` decodes now: everything before it is
    /// consumed, while the bytes from it on form a completable fragment that
    /// a streaming decoder would buffer.
    pub fn find_valid_boundary(data: &[u8]) -> (r: usize)
        ensures
            r == data@.len() - stream_keep(data@).len(),
            data@.skip(r as int) == stream_keep(data@),
    {
        let n = data.len();
        proof {
            lemma_keep_props(data@);
        }
        if n >= 1 && Self::tail_could_extend(data, n - 1) {
            proof {
                lemma_keep_reaches(data@, n - 1);
            }
            n - 1
        } else if n >= 2 && Self::tail_could_extend(data, n - 2) {
            proof {
                lemma_keep_reaches(data@, n - 2);
            }
            n - 2
        } else if n >= 3 && Self::tail_could_extend(data, n - 3) {
            proof {
                lemma_keep_reaches(data@, n - 3);
            }
            n - 3
        } else {
            proof {
                let keep = stream_keep(data@);
                if keep.len() > 0 {
                    assert(could_extend(data@.skip(data@.len() - keep.len())));
                    assert(false);
                }
                assert(data@.skip(n as int) =~= keep);
            }
            n
        }
    }

    /// Whether the suffix of `data` starting at `start` is a completable
    /// fragment.
    fn tail_could_extend(data: &[u8], start: usize) -> (r: bool)
        requires
            start < data@.len(),
        ensures
            r == could_extend(data@.skip(start as int)),
    {
        let ghost s = data@.skip(start as int);
        let n = data.len();
        let len = n - start;
        proof {
            assert(s.len() == len);
            assert(forall|k: int| 0 <= k < s.len() ==> s[k] == data@[start + k]);
        }
        if len > 3 {
            return false;
        }
        let b0 = data[start];
        if len == 1 {
            (0xc2 <= b0 && b0 <= 0xdf) || (0xe0 <= b0 && b0 <= 0xef) || (0xf0 <= b0 && b0 <= 0xf4)
        } else {
            let b1 = data[start + 1];
            let two_ok = (0x80 <= b1 && b1 <= 0xbf) && ((0xe0 <= b0 && b0 <= 0xef && (b0 != 0xe0
                || b1 >= 0xa0) && (b0 != 0xed || b1 <= 0x9f)) || (0xf0 <= b0 && b0 <= 0xf4 && (b0
                != 0xf0 || b1 >= 0x90) && (b0 != 0xf4 || b1 <= 0x8f)));
            if len == 2 {
                two_ok
            } else {
                let b2 = data[start + 2];
                0xf0 <= b0 && b0 <= 0xf4 && two_ok && 0x80 <= b2 && b2 <= 0xbf
            }
        }
    }
}

/// Copies `data[start..]` into a fresh vector.
fn copy_tail(data: &Vec<u8>, start: usize) -> (r: Vec<u8>)
    requires
        start <= data@.len(),
    ensures
        r@ == data@.skip(start as int),
{
    let mut r: Vec<u8> = Vec::new();
    let mut j = start;
    while j < data.len()
        invariant
            start <= j <= data@.len(),
            r@ == data@.subrange(start as int, j as int),
        decreases data@.len() - j,
    {
        r.push(data[j]);
        j += 1;
        proof {
            assert(r@ =~= data@.subrange(start as int, j as int));
        }
    }
    proof {
        assert(r@ =~= data@.skip(start as int));
    }
    r
}

} // verus!
