use crate::error::{Error, ErrorView};
use vstd::prelude::*;
use vstd::utf8::*;

verus! {

/// What the decoder finds at the head of a byte sequence.
pub ghost enum Step {
    /// Nothing more to decode: the input is used up, or it stops inside a
    /// sequence of several bytes.
    End,
    /// A character, encoded in `width` bytes.
    Char { c: char, width: int },
    /// Bytes that encode no character, as the error reports them.
    Invalid { bytes: Seq<u8> },
}

/// The first `count` bytes of `rest`, padded with zeros to four.
pub open spec fn staged(rest: Seq<u8>, count: int) -> Seq<u8> {
    Seq::new(
        4,
        |i: int|
            if i < count {
                rest[i]
            } else {
                0u8
            },
    )
}

/// The character of a code point read from `width` bytes, if it is a
/// Unicode scalar value.
pub open spec fn scalar_step(rest: Seq<u8>, codepoint: u32, width: int) -> Step {
    if is_scalar(codepoint) {
        Step::Char { c: codepoint as char, width }
    } else {
        Step::Invalid { bytes: staged(rest, width) }
    }
}

/// One step of decoding. Bytes are read one at a time: the first decides how
/// many follow, and each follower must be a continuation byte. Encodings
/// longer than needed are accepted.
pub open spec fn decode_step(rest: Seq<u8>) -> Step {
    if rest.len() == 0 {
        Step::End
    } else if is_leading_byte_width_1(rest[0]) {
        Step::Char { c: rest[0] as char, width: 1 }
    } else if !(is_leading_byte_width_2(rest[0]) || is_leading_byte_width_3(rest[0])
        || is_leading_byte_width_4(rest[0])) {
        Step::Invalid { bytes: staged(rest, 1) }
    } else if rest.len() < 2 {
        Step::End
    } else if !is_continuation_byte(rest[1]) {
        Step::Invalid { bytes: staged(rest, 2) }
    } else if is_leading_byte_width_2(rest[0]) {
        scalar_step(rest, codepoint_width_2(rest[0], rest[1]), 2)
    } else if rest.len() < 3 {
        Step::End
    } else if !is_continuation_byte(rest[2]) {
        Step::Invalid { bytes: staged(rest, 3) }
    } else if is_leading_byte_width_3(rest[0]) {
        scalar_step(rest, codepoint_width_3(rest[0], rest[1], rest[2]), 3)
    } else if rest.len() < 4 {
        Step::End
    } else if !is_continuation_byte(rest[3]) {
        Step::Invalid { bytes: staged(rest, 4) }
    } else {
        scalar_step(rest, codepoint_width_4(rest[0], rest[1], rest[2], rest[3]), 4)
    }
}

/// A decoded stream: the characters up to the first failure or the end, and
/// the bytes of that failure if there is one.
pub ghost struct Decoded {
    pub chars: Seq<char>,
    pub failure: Option<Seq<u8>>,
}

/// Everything the decoder yields from `rest`. (A character is always read
/// from bytes that are there, see [`lemma_step_width`].)
pub open spec fn decode_all(rest: Seq<u8>) -> Decoded
    decreases rest.len(),
{
    match decode_step(rest) {
        Step::End => Decoded { chars: Seq::empty(), failure: None },
        Step::Invalid { bytes } => Decoded { chars: Seq::empty(), failure: Some(bytes) },
        Step::Char { c, width } => {
            if 1 <= width <= rest.len() {
                let tail = decode_all(rest.skip(width));
                Decoded { chars: seq![c] + tail.chars, failure: tail.failure }
            } else {
                Decoded { chars: Seq::empty(), failure: None }
            }
        },
    }
}

/// A lazy UTF-8 decoder over a byte slice.
pub struct Chars<'a> {
    bytes: &'a [u8],
    pos: usize,
    ended: bool,
}

impl<'a> Chars<'a> {
    /// Whether the position lies inside the input.
    #[verifier::type_invariant]
    spec fn inv(&self) -> bool {
        self.pos <= self.bytes@.len()
    }

    /// The bytes not yet decoded; none once the stream has ended.
    pub closed spec fn remaining(&self) -> Seq<u8> {
        if self.ended {
            Seq::empty()
        } else {
            self.bytes@.skip(self.pos as int)
        }
    }

    /// A decoder at the start of `bytes`.
    pub fn new(bytes: &'a [u8]) -> (res: Self)
        ensures
            res.remaining() == bytes@,
    {
        Chars { bytes, pos: 0, ended: false }
    }

    fn fail(&mut self, staging: [u8; 4]) -> (res: Option<Result<char, Error>>)
        ensures
            final(self).remaining() == Seq::<u8>::empty(),
            res == Some(Err::<char, Error>(Error::Utf8(staging))),
    {
        proof {
            use_type_invariant(&*self);
        }
        self.ended = true;
        Some(Err(Error::Utf8(staging)))
    }

    fn emit(&mut self, codepoint: u32, width: usize, staging: [u8; 4]) -> (res: Option<
        Result<char, Error>,
    >)
        requires
            !old(self).ended,
            1 <= width <= 4,
            old(self).pos + width <= old(self).bytes@.len(),
            staging@ == staged(old(self).remaining(), width as int),
        ensures
            match scalar_step(old(self).remaining(), codepoint, width as int) {
                Step::Char { c, width } => res == Some(Ok::<char, Error>(c))
                    && final(self).remaining() == old(self).remaining().skip(width),
                Step::Invalid { bytes } => res matches Some(Err(e)) && e@ == ErrorView::Utf8(bytes)
                    && final(self).remaining() == Seq::<u8>::empty(),
                Step::End => false,
            },
    {
        let n = self.bytes.len();
        match char::from_u32(codepoint) {
            Some(c) => {
                assert(self.pos + width <= n);
                self.pos = self.pos + width;
                assert(self.remaining() =~= old(self).remaining().skip(width as int));
                Some(Ok(c))
            },
            None => self.fail(staging),
        }
    }

    /// The next character, the failure that ends the stream, or nothing when
    /// the stream is over.
    pub fn next(&mut self) -> (res: Option<Result<char, Error>>)
        ensures
            match decode_step(old(self).remaining()) {
                Step::End => res is None && final(self).remaining() == Seq::<u8>::empty(),
                Step::Char { c, width } => res == Some(Ok::<char, Error>(c)) && 1 <= width
                    <= old(self).remaining().len() && final(self).remaining() == old(
                    self,
                ).remaining().skip(width),
                Step::Invalid { bytes } => res matches Some(Err(e)) && e@ == ErrorView::Utf8(bytes)
                    && final(self).remaining() == Seq::<u8>::empty(),
            },
    {
        proof {
            use_type_invariant(&*self);
        }
        broadcast use utf8_byte_ranges_bitwise;

        let n = self.bytes.len();
        if self.ended || self.pos >= n {
            self.ended = true;
            return None;
        }
        let ghost rest = self.remaining();
        let left = n - self.pos;
        let b0 = self.bytes[self.pos];
        assert(rest[0] == b0);
        if b0 & 0x80 == 0 {
            self.pos = self.pos + 1;
            assert(self.remaining() =~= rest.skip(1));
            return Some(Ok(b0 as char));
        }
        if !(b0 & 0xe0 == 0xc0 || b0 & 0xf0 == 0xe0 || b0 & 0xf8 == 0xf0) {
            let staging = [b0, 0, 0, 0];
            assert(staging@ =~= staged(rest, 1));
            return self.fail(staging);
        }
        if left < 2 {
            self.ended = true;
            return None;
        }
        let b1 = self.bytes[self.pos + 1];
        assert(rest[1] == b1);
        if b1 & 0xc0 != 0x80 {
            let staging = [b0, b1, 0, 0];
            assert(staging@ =~= staged(rest, 2));
            return self.fail(staging);
        }
        if b0 & 0xe0 == 0xc0 {
            let staging = [b0, b1, 0, 0];
            assert(staging@ =~= staged(rest, 2));
            let codepoint = (((b0 & 0x1f) as u32) << 6) | ((b1 & 0x3f) as u32);
            return self.emit(codepoint, 2, staging);
        }
        if left < 3 {
            self.ended = true;
            return None;
        }
        let b2 = self.bytes[self.pos + 2];
        assert(rest[2] == b2);
        if b2 & 0xc0 != 0x80 {
            let staging = [b0, b1, b2, 0];
            assert(staging@ =~= staged(rest, 3));
            return self.fail(staging);
        }
        if b0 & 0xf0 == 0xe0 {
            let staging = [b0, b1, b2, 0];
            assert(staging@ =~= staged(rest, 3));
            let codepoint = (((b0 & 0x0f) as u32) << 12) | (((b1 & 0x3f) as u32) << 6) | ((b2
                & 0x3f) as u32);
            return self.emit(codepoint, 3, staging);
        }
        if left < 4 {
            self.ended = true;
            return None;
        }
        let b3 = self.bytes[self.pos + 3];
        assert(rest[3] == b3);
        let staging = [b0, b1, b2, b3];
        assert(staging@ =~= staged(rest, 4));
        if b3 & 0xc0 != 0x80 {
            return self.fail(staging);
        }
        let codepoint = (((b0 & 0x07) as u32) << 18) | (((b1 & 0x3f) as u32) << 12) | (((b2
            & 0x3f) as u32) << 6) | ((b3 & 0x3f) as u32);
        self.emit(codepoint, 4, staging)
    }
}

/// Decodes a whole byte slice: the characters up to the first failure or
/// the end, and that failure if there is one.
pub fn decode(bytes: &[u8]) -> (res: (Vec<char>, Option<Error>))
    ensures
        res.0@ == decode_all(bytes@).chars,
        match decode_all(bytes@).failure {
            Some(staging) => res.1 matches Some(e) && e@ == ErrorView::Utf8(staging),
            None => res.1 is None,
        },
{
    let mut chars = Chars::new(bytes);
    let mut found: Vec<char> = Vec::new();
    loop
        invariant
            found@ + decode_all(chars.remaining()).chars == decode_all(bytes@).chars,
            decode_all(chars.remaining()).failure == decode_all(bytes@).failure,
        decreases chars.remaining().len(),
    {
        let ghost rest = chars.remaining();
        let ghost before = found@;
        match chars.next() {
            None => {
                assert(found@ =~= decode_all(bytes@).chars);
                return (found, None);
            },
            Some(Ok(c)) => {
                found.push(c);
                assert(found@ + decode_all(chars.remaining()).chars =~= before + decode_all(
                    rest,
                ).chars);
            },
            Some(Err(e)) => {
                assert(found@ =~= decode_all(bytes@).chars);
                return (found, Some(e));
            },
        }
    }
}

/// What the decoder finds at the head of valid UTF-8 is the first scalar
/// value of the standard decoding, in its length.
pub proof fn lemma_step_valid(bytes: Seq<u8>)
    requires
        valid_first_scalar(bytes),
    ensures
        decode_step(bytes) == (Step::Char {
            c: decode_first_scalar(bytes) as char,
            width: length_of_first_scalar(bytes),
        }),
        1 <= length_of_first_scalar(bytes) <= bytes.len(),
{
    let b0 = bytes[0];
    if is_leading_byte_width_1(b0) {
        assert(b0 <= 0x7f ==> (b0 & 0x7f) == b0) by (bit_vector);
    } else if is_leading_byte_width_2(b0) {
        let b1 = bytes[1];
        let x = (b0 & 0x1f) as u32;
        let y = (b1 & 0x3f) as u32;
        assert((b0 & 0x1f) <= 0x1f && (b1 & 0x3f) <= 0x3f) by (bit_vector);
        assert(x <= 0x1f && y <= 0x3f ==> ((x << 6) | y) <= 0x7ff) by (bit_vector);
    } else if is_leading_byte_width_3(b0) {
        let b1 = bytes[1];
        let b2 = bytes[2];
        let x = (b0 & 0x0f) as u32;
        let y = (b1 & 0x3f) as u32;
        let z = (b2 & 0x3f) as u32;
        assert((b0 & 0x0f) <= 0x0f && (b1 & 0x3f) <= 0x3f && (b2 & 0x3f) <= 0x3f)
            by (bit_vector);
        assert(x <= 0x0f && y <= 0x3f && z <= 0x3f ==> ((x << 12) | (y << 6) | z) <= 0xffff)
            by (bit_vector);
    } else {
    }
}

/// On valid UTF-8 the decoder yields the characters of the standard
/// decoding and no failure.
pub proof fn lemma_decode_valid(bytes: Seq<u8>)
    requires
        valid_utf8(bytes),
    ensures
        decode_all(bytes) == (Decoded { chars: decode_utf8(bytes), failure: None }),
    decreases bytes.len(),
{
    if bytes.len() == 0 {
        assert(decode_utf8(bytes) =~= Seq::empty());
    } else {
        lemma_step_valid(bytes);
        let width = length_of_first_scalar(bytes);
        assert(pop_first_scalar(bytes) =~= bytes.skip(width));
        lemma_decode_valid(bytes.skip(width));
    }
}

/// A character is read from one to four bytes of the input.
pub proof fn lemma_step_width(bytes: Seq<u8>)
    ensures
        decode_step(bytes) matches Step::Char { c, width } ==> 1 <= width <= 4 && width
            <= bytes.len(),
{
}

/// A failure is reported for invalid input only, and it holds four bytes,
/// the first of them the byte at which the failing sequence began.
pub proof fn lemma_failure_invalid(bytes: Seq<u8>)
    requires
        decode_all(bytes).failure is Some,
    ensures
        !valid_utf8(bytes),
        decode_all(bytes).failure->Some_0.len() == 4,
    decreases bytes.len(),
{
    if valid_utf8(bytes) {
        lemma_decode_valid(bytes);
    }
    lemma_step_width(bytes);
    match decode_step(bytes) {
        Step::Char { c, width } => {
            lemma_failure_invalid(bytes.skip(width));
        },
        _ => {},
    }
}

/// The characters of a string decode from its bytes.
pub proof fn lemma_decode_encoded(chars: Seq<char>)
    ensures
        decode_all(encode_utf8(chars)) == (Decoded { chars, failure: None }),
{
    encode_utf8_valid_utf8(chars);
    encode_utf8_decode_utf8(chars);
    lemma_decode_valid(encode_utf8(chars));
}

} // verus!
