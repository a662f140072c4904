//! Byte streams that are meant to be UTF-8, cut into pieces.
//!
//! A piece is one encoded character, one run of bytes that can never become a
//! character, or a tail that more bytes may still complete.
use vstd::prelude::*;
use vstd::utf8::{
    codepoint_width_1, codepoint_width_2, codepoint_width_3, codepoint_width_4,
    decode_first_scalar, decode_utf8, decode_utf8_first_scalar, encode_scalar, encode_utf8,
    encode_utf8_first_scalar, is_continuation_byte, length_of_first_scalar, pop_first_scalar,
    take_first_scalar, valid_first_scalar, valid_utf8,
};

verus! {

/// What stands for bytes that are not UTF-8.
pub const REPLACEMENT: char = '\u{fffd}';

/// The UTF-8 encoding of one character.
pub open spec fn char_bytes(c: char) -> Seq<u8> {
    encode_scalar(c as u32)
}

/// Whether some character's encoding starts with these bytes.
pub open spec fn begins_char(bytes: Seq<u8>) -> bool {
    exists|c: char| bytes.is_prefix_of(#[trigger] char_bytes(c))
}

/// The first piece of a byte sequence, with its length in bytes.
pub enum Piece {
    /// A complete character.
    Char(char, int),
    /// Bytes that no continuation turns into a character.
    Invalid(int),
    /// All that is there is the start of a character.
    Incomplete,
}

/// The length of the longest start of a character at the front of `bytes`, which do not
/// begin with a whole character, and at least one byte.
pub open spec fn invalid_len(bytes: Seq<u8>) -> int {
    if bytes.len() >= 3 && begins_char(bytes.take(3)) {
        3
    } else if bytes.len() >= 2 && begins_char(bytes.take(2)) {
        2
    } else {
        1
    }
}

/// How a nonempty byte sequence starts.
pub open spec fn first_piece(bytes: Seq<u8>) -> Piece {
    if valid_first_scalar(bytes) {
        Piece::Char(decode_first_scalar(bytes) as char, length_of_first_scalar(bytes))
    } else if begins_char(bytes) {
        Piece::Incomplete
    } else {
        Piece::Invalid(invalid_len(bytes))
    }
}

/// The number of bytes that a leading byte announces; none when it can lead nothing.
spec fn announced(lead: u8) -> int {
    if lead <= 0x7f {
        1
    } else if 0xc2 <= lead <= 0xdf {
        2
    } else if 0xe0 <= lead <= 0xef {
        3
    } else if 0xf0 <= lead <= 0xf4 {
        4
    } else {
        0
    }
}

/// The second bytes that a leading byte allows: no overlong form, no surrogate, nothing
/// past the last character.
spec fn second_fits(lead: u8, second: u8) -> bool {
    if lead == 0xe0 {
        0xa0 <= second <= 0xbf
    } else if lead == 0xed {
        0x80 <= second <= 0x9f
    } else if lead == 0xf0 {
        0x90 <= second <= 0xbf
    } else if lead == 0xf4 {
        0x80 <= second <= 0x8f
    } else {
        0x80 <= second <= 0xbf
    }
}

/// Byte ranges of the starts of encoded characters.
spec fn fits(bytes: Seq<u8>) -> bool {
    bytes.len() > 0 ==> {
        &&& bytes.len() <= announced(bytes[0])
        &&& bytes.len() >= 2 ==> second_fits(bytes[0], bytes[1])
        &&& bytes.len() >= 3 ==> is_continuation_byte(bytes[2])
        &&& bytes.len() >= 4 ==> is_continuation_byte(bytes[3])
    }
}

proof fn lemma_one(b1: u8)
    by (bit_vector)
    requires
        b1 <= 0x7f,
    ensures
        codepoint_width_1(b1) <= 0x7f,
{
}

proof fn lemma_two(b1: u8, b2: u8)
    by (bit_vector)
    requires
        0xc0 <= b1 <= 0xdf,
        0x80 <= b2 <= 0xbf,
    ensures
        codepoint_width_2(b1, b2) >= 0x80 <==> b1 >= 0xc2,
        codepoint_width_2(b1, b2) <= 0x7ff,
{
}

proof fn lemma_three(b1: u8, b2: u8, b3: u8)
    by (bit_vector)
    requires
        0xe0 <= b1 <= 0xef,
        0x80 <= b2 <= 0xbf,
        0x80 <= b3 <= 0xbf,
    ensures
        codepoint_width_3(b1, b2, b3) >= 0x800 <==> (b1 != 0xe0 || b2 >= 0xa0),
        (0xd800 <= codepoint_width_3(b1, b2, b3) <= 0xdfff) <==> (b1 == 0xed && b2 >= 0xa0),
{
}

proof fn lemma_four(b1: u8, b2: u8, b3: u8, b4: u8)
    by (bit_vector)
    requires
        0xf0 <= b1 <= 0xf7,
        0x80 <= b2 <= 0xbf,
        0x80 <= b3 <= 0xbf,
        0x80 <= b4 <= 0xbf,
    ensures
        codepoint_width_4(b1, b2, b3, b4) >= 0x10000 <==> (b1 != 0xf0 || b2 >= 0x90),
        codepoint_width_4(b1, b2, b3, b4) <= 0x10ffff <==> (b1 < 0xf4 || (b1 == 0xf4 && b2
            <= 0x8f)),
{
}

/// A sequence begins with a whole character exactly when its bytes are in range, as many
/// as the first one announces.
proof fn lemma_valid_first(bytes: Seq<u8>)
    ensures
        valid_first_scalar(bytes) <==> bytes.len() > 0 && 0 < announced(bytes[0]) <= bytes.len()
            && fits(bytes.take(announced(bytes[0]))),
        valid_first_scalar(bytes) ==> length_of_first_scalar(bytes) == announced(bytes[0]),
{
    if bytes.len() > 0 {
        let b1 = bytes[0];
        if b1 <= 0x7f {
            lemma_one(b1);
        }
        if bytes.len() >= 2 {
            let b2 = bytes[1];
            if 0xc0 <= b1 <= 0xdf && is_continuation_byte(b2) {
                lemma_two(b1, b2);
            }
            if bytes.len() >= 3 {
                let b3 = bytes[2];
                if 0xe0 <= b1 <= 0xef && is_continuation_byte(b2) && is_continuation_byte(b3) {
                    lemma_three(b1, b2, b3);
                }
                if bytes.len() >= 4 {
                    let b4 = bytes[3];
                    if 0xf0 <= b1 <= 0xf7 && is_continuation_byte(b2) && is_continuation_byte(b3)
                        && is_continuation_byte(b4) {
                        lemma_four(b1, b2, b3, b4);
                    }
                }
            }
        }
    }
}

/// Every start of a character that is in range can be completed.
proof fn lemma_completion(bytes: Seq<u8>) -> (rest: Seq<u8>)
    requires
        bytes.len() > 0,
        fits(bytes),
    ensures
        valid_first_scalar(bytes + rest),
        length_of_first_scalar(bytes + rest) == bytes.len() + rest.len(),
{
    let width = announced(bytes[0]);
    let second: u8 = if bytes[0] == 0xe0 || bytes[0] == 0xf0 { 0xa0 } else { 0x80 };
    let rest = Seq::new(
        (width - bytes.len()) as nat,
        |i: int|
            if bytes.len() + i == 1 {
                second
            } else {
                0x80u8
            },
    );
    let whole = bytes + rest;
    assert(whole.take(width) =~= whole);
    assert(fits(whole));
    lemma_valid_first(whole);
    rest
}

/// The encoding of a character is the encoding of the text of that one character.
pub proof fn lemma_char_bytes(c: char)
    ensures
        encode_utf8(seq![c]) == char_bytes(c),
{
    assert(seq![c].drop_first() =~= Seq::<char>::empty());
    reveal_with_fuel(encode_utf8, 2);
    assert(encode_utf8(seq![c]) =~= char_bytes(c));
}

/// The starts of characters are the sequences whose bytes are in range.
proof fn lemma_begins(bytes: Seq<u8>)
    ensures
        begins_char(bytes) <==> fits(bytes),
{
    if begins_char(bytes) {
        let c = choose|c: char| bytes.is_prefix_of(#[trigger] char_bytes(c));
        let whole = char_bytes(c);
        lemma_char_bytes(c);
        encode_utf8_first_scalar(seq![c]);
        lemma_valid_first(whole);
        assert(whole.take(announced(whole[0])) =~= whole);
    }
    if fits(bytes) {
        if bytes.len() == 0 {
            assert(bytes.is_prefix_of(char_bytes('a')));
        } else {
            let rest = lemma_completion(bytes);
            let whole = bytes + rest;
            assert(pop_first_scalar(whole).len() == 0);
            assert(valid_utf8(whole)) by {
                reveal_with_fuel(valid_utf8, 2);
            }
            decode_utf8_first_scalar(whole);
            let c = decode_first_scalar(whole) as char;
            assert(take_first_scalar(whole) =~= whole);
            assert(bytes.is_prefix_of(char_bytes(c)));
        }
    }
}

/// What a first piece says of the bytes that it is cut from.
pub proof fn lemma_first_piece(bytes: Seq<u8>)
    requires
        bytes.len() > 0,
    ensures
        match first_piece(bytes) {
            Piece::Char(c, n) => 1 <= n <= 4 && n <= bytes.len() && char_bytes(c) == bytes.take(n),
            Piece::Invalid(n) => 1 <= n <= 3 && n <= bytes.len(),
            Piece::Incomplete => bytes.len() <= 3,
        },
{
    lemma_valid_first(bytes);
    lemma_begins(bytes);
    if valid_first_scalar(bytes) {
        let first = take_first_scalar(bytes);
        assert(first =~= bytes.take(length_of_first_scalar(bytes)));
        lemma_valid_first(first);
        assert(first.take(announced(first[0])) =~= first);
        assert(pop_first_scalar(first).len() == 0);
        assert(valid_utf8(first)) by {
            reveal_with_fuel(valid_utf8, 2);
        }
        decode_utf8_first_scalar(first);
        assert(take_first_scalar(first) =~= first);
        assert(decode_first_scalar(first) == decode_first_scalar(bytes));
    } else if begins_char(bytes) && bytes.len() >= 4 {
        assert(bytes.take(announced(bytes[0])) =~= bytes);
    }
}

/// What comes after a piece does not change it, once it is more than the start of a
/// character.
pub proof fn lemma_first_piece_stable(bytes: Seq<u8>, more: Seq<u8>)
    requires
        bytes.len() > 0,
        first_piece(bytes) !is Incomplete,
    ensures
        first_piece(bytes + more) == first_piece(bytes),
{
    let all = bytes + more;
    lemma_valid_first(bytes);
    lemma_valid_first(all);
    lemma_begins(bytes);
    lemma_begins(all);
    if valid_first_scalar(bytes) {
        let n = announced(bytes[0]);
        assert(all.take(n) =~= bytes.take(n));
    } else {
        if valid_first_scalar(all) {
            let n = announced(all[0]);
            if n <= bytes.len() {
                assert(all.take(n) =~= bytes.take(n));
            } else {
                assert(fits(bytes));
            }
        }
        assert(!fits(all));
        if bytes.len() >= 2 {
            assert(all.take(2) =~= bytes.take(2));
        } else if all.len() >= 2 {
            lemma_begins(all.take(2));
        }
        if bytes.len() >= 3 {
            assert(all.take(3) =~= bytes.take(3));
        } else if all.len() >= 3 {
            lemma_begins(all.take(3));
        }
    }
}

/// How `cut_piece` reports a piece.
#[derive(Clone, Copy, Debug, PartialEq, Eq)]
pub enum Cut {
    Char(usize),
    Invalid(usize),
    Incomplete,
}

fn is_continuation(byte: u8) -> (r: bool)
    ensures
        r == is_continuation_byte(byte),
{
    0x80 <= byte && byte <= 0xbf
}

fn announced_by(lead: u8) -> (width: usize)
    ensures
        width == announced(lead),
{
    if lead <= 0x7f {
        1
    } else if 0xc2 <= lead && lead <= 0xdf {
        2
    } else if 0xe0 <= lead && lead <= 0xef {
        3
    } else if 0xf0 <= lead && lead <= 0xf4 {
        4
    } else {
        0
    }
}

fn second_may_be(lead: u8, second: u8) -> (r: bool)
    ensures
        r == second_fits(lead, second),
{
    match lead {
        0xe0 => 0xa0 <= second && second <= 0xbf,
        0xed => 0x80 <= second && second <= 0x9f,
        0xf0 => 0x90 <= second && second <= 0xbf,
        0xf4 => 0x80 <= second && second <= 0x8f,
        _ => 0x80 <= second && second <= 0xbf,
    }
}

/// The kind and the length of the first piece of `bytes` from `at` on.
pub fn cut_piece(bytes: &[u8], at: usize) -> (cut: Cut)
    requires
        at < bytes.len(),
    ensures
        match first_piece(bytes@.skip(at as int)) {
            Piece::Char(_, n) => cut == Cut::Char(n as usize),
            Piece::Invalid(n) => cut == Cut::Invalid(n as usize),
            Piece::Incomplete => cut == Cut::Incomplete,
        },
{
    let ghost tail = bytes@.skip(at as int);
    proof {
        lemma_valid_first(tail);
        lemma_begins(tail);
        if tail.len() >= 2 {
            lemma_begins(tail.take(2));
        }
        if tail.len() >= 3 {
            lemma_begins(tail.take(3));
        }
    }
    let available = bytes.len() - at;
    let width = announced_by(bytes[at]);
    if width == 0 {
        return Cut::Invalid(1);
    }
    if width == 1 {
        assert(fits(tail.take(1)));
        return Cut::Char(1);
    }
    if available == 1 {
        return Cut::Incomplete;
    }
    if !second_may_be(bytes[at], bytes[at + 1]) {
        return Cut::Invalid(1);
    }
    if width == 2 {
        assert(fits(tail.take(2)));
        return Cut::Char(2);
    }
    if available == 2 {
        return Cut::Incomplete;
    }
    if !is_continuation(bytes[at + 2]) {
        return Cut::Invalid(2);
    }
    if width == 3 {
        assert(fits(tail.take(3)));
        return Cut::Char(3);
    }
    if available == 3 {
        return Cut::Incomplete;
    }
    if !is_continuation(bytes[at + 3]) {
        return Cut::Invalid(3);
    }
    assert(fits(tail.take(4)));
    Cut::Char(4)
}

/// The number of bytes in front of the first byte that belongs to no complete character.
pub open spec fn valid_len(bytes: Seq<u8>) -> int
    decreases bytes.len(),
{
    if bytes.len() == 0 {
        0
    } else {
        match first_piece(bytes) {
            Piece::Char(_, n) => n + valid_len(bytes.skip(n)),
            _ => 0,
        }
    }
}

/// The characters of a byte sequence: those that it encodes, one replacement for each
/// piece that is not UTF-8, nothing for the start of a character at its end.
pub open spec fn text(bytes: Seq<u8>) -> Seq<char>
    decreases bytes.len(),
{
    if bytes.len() == 0 {
        seq![]
    } else {
        match first_piece(bytes) {
            Piece::Char(c, n) => seq![c] + text(bytes.skip(n)),
            Piece::Invalid(n) => seq![REPLACEMENT] + text(bytes.skip(n)),
            Piece::Incomplete => seq![],
        }
    }
}

/// The start of a character at the end of a byte sequence.
pub open spec fn incomplete_tail(bytes: Seq<u8>) -> Seq<u8>
    decreases bytes.len(),
{
    if bytes.len() == 0 {
        seq![]
    } else {
        match first_piece(bytes) {
            Piece::Char(_, n) => incomplete_tail(bytes.skip(n)),
            Piece::Invalid(n) => incomplete_tail(bytes.skip(n)),
            Piece::Incomplete => bytes,
        }
    }
}

/// All characters of a byte sequence that nothing follows: a start of a character at its
/// end is replaced too.
pub open spec fn lossy(bytes: Seq<u8>) -> Seq<char> {
    text(bytes) + (if incomplete_tail(bytes).len() > 0 {
        seq![REPLACEMENT]
    } else {
        seq![]
    })
}

/// The texts in which the characters of a byte sequence are handed on: each run of
/// characters as one text, each replacement as a text of its own.
pub open spec fn records(bytes: Seq<u8>) -> Seq<Seq<char>>
    decreases bytes.len(),
{
    if bytes.len() == 0 {
        seq![]
    } else if 0 < valid_len(bytes) <= bytes.len() {
        seq![decode_utf8(bytes.take(valid_len(bytes)))] + records(bytes.skip(valid_len(bytes)))
    } else {
        match first_piece(bytes) {
            Piece::Invalid(n) => seq![seq![REPLACEMENT]] + records(bytes.skip(n)),
            _ => seq![],
        }
    }
}

/// `valid_len` is the length of the longest front part that is UTF-8, and `text` decodes
/// that part as UTF-8 is decoded.
pub proof fn lemma_valid_len(bytes: Seq<u8>)
    ensures
        0 <= valid_len(bytes) <= bytes.len(),
        valid_utf8(bytes.take(valid_len(bytes))),
        forall|k: int|
            0 <= k <= bytes.len() && #[trigger] valid_utf8(bytes.take(k)) ==> k <= valid_len(bytes),
        text(bytes) == decode_utf8(bytes.take(valid_len(bytes))) + text(
            bytes.skip(valid_len(bytes)),
        ),
        incomplete_tail(bytes) == incomplete_tail(bytes.skip(valid_len(bytes))),
    decreases bytes.len(),
{
    let whole = valid_len(bytes);
    if bytes.len() > 0 && first_piece(bytes) is Char {
        lemma_first_piece(bytes);
        let n = length_of_first_scalar(bytes);
        let rest = bytes.skip(n);
        lemma_valid_len(rest);
        let front = bytes.take(whole);
        assert(pop_first_scalar(front) =~= rest.take(valid_len(rest)));
        assert(valid_first_scalar(front));
        assert(bytes.skip(whole) =~= rest.skip(valid_len(rest)));
        assert(decode_first_scalar(front) == decode_first_scalar(bytes));
        assert(text(bytes) =~= decode_utf8(front) + text(bytes.skip(whole)));
        assert forall|k: int| 0 <= k <= bytes.len() && #[trigger] valid_utf8(
            bytes.take(k),
        ) implies k <= whole by {
            if k > 0 {
                let part = bytes.take(k);
                assert(valid_first_scalar(part));
                assert(length_of_first_scalar(part) == n);
                assert(pop_first_scalar(part) =~= rest.take(k - n));
                assert(valid_utf8(rest.take(k - n)));
            }
        }
    } else {
        assert(bytes.take(0) =~= Seq::<u8>::empty());
        assert(bytes.skip(0) =~= bytes);
        assert(text(bytes) =~= decode_utf8(bytes.take(0)) + text(bytes.skip(0)));
        assert forall|k: int| 0 <= k <= bytes.len() && #[trigger] valid_utf8(
            bytes.take(k),
        ) implies k <= 0 by {
            if k > 0 {
                lemma_valid_first(bytes);
                lemma_valid_first(bytes.take(k));
                assert(bytes.take(k).take(announced(bytes[0])) =~= bytes.take(announced(bytes[0])));
            }
        }
    }
}

/// The records of a byte sequence, put together, are its characters.
pub proof fn lemma_records_are_text(bytes: Seq<u8>)
    ensures
        records(bytes).flatten() == text(bytes),
    decreases bytes.len(),
{
    lemma_valid_len(bytes);
    if bytes.len() > 0 {
        lemma_first_piece(bytes);
        if let Piece::Char(_, k) = first_piece(bytes) {
            lemma_valid_len(bytes.skip(k));
        }
        let n = valid_len(bytes);
        if n > 0 {
            let front = decode_utf8(bytes.take(n));
            let rest = records(bytes.skip(n));
            lemma_records_are_text(bytes.skip(n));
            assert(records(bytes).drop_first() =~= rest);
            assert(records(bytes).first() == front);
            assert(records(bytes).flatten() =~= front + rest.flatten());
        } else if let Piece::Invalid(k) = first_piece(bytes) {
            let rest = records(bytes.skip(k));
            lemma_records_are_text(bytes.skip(k));
            assert(records(bytes).drop_first() =~= rest);
            assert(records(bytes).flatten() =~= seq![REPLACEMENT] + rest.flatten());
        } else {
            assert(first_piece(bytes) is Incomplete);
            assert(records(bytes) =~= Seq::<Seq<char>>::empty());
        }
    }
}

/// What is left of a byte sequence at its end is nothing, or the start of a character.
pub proof fn lemma_incomplete_tail(bytes: Seq<u8>)
    ensures
        ({
            let tail = incomplete_tail(bytes);
            &&& tail.len() <= 3
            &&& tail.len() > 0 ==> first_piece(tail) is Incomplete
            &&& tail.is_suffix_of(bytes)
        }),
    decreases bytes.len(),
{
    if bytes.len() > 0 {
        lemma_first_piece(bytes);
        match first_piece(bytes) {
            Piece::Char(_, n) => lemma_incomplete_tail(bytes.skip(n)),
            Piece::Invalid(n) => lemma_incomplete_tail(bytes.skip(n)),
            Piece::Incomplete => {},
        }
    }
}

/// A byte sequence can be cut anywhere: the characters of the front part, followed by the
/// characters of what was left of it together with the rest, are the characters of the
/// whole.
pub proof fn lemma_cut_anywhere(front: Seq<u8>, rest: Seq<u8>)
    ensures
        text(front + rest) == text(front) + text(incomplete_tail(front) + rest),
        incomplete_tail(front + rest) == incomplete_tail(incomplete_tail(front) + rest),
    decreases front.len(),
{
    let all = front + rest;
    if front.len() == 0 {
        assert(all =~= rest);
        assert(incomplete_tail(front) + rest =~= rest);
        assert(text(all) =~= text(front) + text(rest));
    } else {
        lemma_first_piece(front);
        if first_piece(front) is Incomplete {
            assert(text(all) =~= text(front) + text(all));
        } else {
            lemma_first_piece_stable(front, rest);
            let n = match first_piece(front) {
                Piece::Char(_, n) => n,
                Piece::Invalid(n) => n,
                Piece::Incomplete => 0,
            };
            lemma_cut_anywhere(front.skip(n), rest);
            assert(all.skip(n) =~= front.skip(n) + rest);
            assert(text(all) =~= text(front) + text(incomplete_tail(front) + rest));
        }
    }
}

/// Bytes that are UTF-8 lose nothing.
pub proof fn lemma_lossy_keeps_utf8(bytes: Seq<u8>)
    requires
        valid_utf8(bytes),
    ensures
        lossy(bytes) == decode_utf8(bytes),
        incomplete_tail(bytes).len() == 0,
{
    lemma_valid_len(bytes);
    assert(bytes.take(bytes.len() as int) =~= bytes);
    assert(bytes.skip(bytes.len() as int).len() == 0);
    assert(lossy(bytes) =~= decode_utf8(bytes));
}

/// What follows bytes that are UTF-8 is cut as if it stood alone.
pub proof fn lemma_after_utf8(front: Seq<u8>, more: Seq<u8>)
    requires
        valid_utf8(front),
    ensures
        valid_len(front + more) == front.len() + valid_len(more),
        text(front + more) == decode_utf8(front) + text(more),
        incomplete_tail(front + more) == incomplete_tail(more),
    decreases front.len(),
{
    let all = front + more;
    if front.len() == 0 {
        assert(all =~= more);
        assert(decode_utf8(front) + text(more) =~= text(more));
    } else {
        lemma_first_piece(front);
        lemma_first_piece_stable(front, more);
        let n = length_of_first_scalar(front);
        assert(pop_first_scalar(front) =~= front.skip(n));
        lemma_after_utf8(front.skip(n), more);
        assert(all.skip(n) =~= front.skip(n) + more);
        assert(text(all) =~= decode_utf8(front) + text(more));
    }
}

/// The texts of bytes that are UTF-8, in front of bytes that do not begin with a character.
pub proof fn lemma_records_after_utf8(front: Seq<u8>, more: Seq<u8>)
    requires
        valid_utf8(front),
        front.len() > 0,
        valid_len(more) == 0,
    ensures
        records(front + more) == seq![decode_utf8(front)] + records(more),
{
    lemma_after_utf8(front, more);
    assert((front + more).take(front.len() as int) =~= front);
    assert((front + more).skip(front.len() as int) =~= more);
}

/// A start of a character that what follows does not go on with, or a byte that starts no
/// character, is cut off as invalid.
pub proof fn lemma_cut_off(bad: Seq<u8>, rest: Seq<u8>)
    requires
        ({
            ||| bad.len() == 1 && !begins_char(bad)
            ||| {
                &&& bad.len() > 0
                &&& begins_char(bad)
                &&& forall|c: char| bad != #[trigger] char_bytes(c)
                &&& rest.len() > 0
                &&& !begins_char(bad.push(rest[0]))
            }
        }),
    ensures
        first_piece(bad + rest) == Piece::Invalid(bad.len() as int),
{
    let all = bad + rest;
    lemma_valid_first(all);
    lemma_begins(all);
    lemma_begins(bad);
    if all.len() >= 2 {
        lemma_begins(all.take(2));
    }
    if all.len() >= 3 {
        lemma_begins(all.take(3));
    }
    if begins_char(bad) {
        lemma_unfinished(bad);
        lemma_valid_first(bad);
        let next = bad.push(rest[0]);
        lemma_begins(next);
        assert(next =~= all.take(bad.len() as int + 1));
        assert(bad.len() <= 3) by {
            lemma_first_piece(bad);
        }
        assert(bad =~= all.take(bad.len() as int));
        assert(bad.len() < announced(bad[0])) by {
            if bad.len() == announced(bad[0]) {
                assert(bad.take(announced(bad[0])) =~= bad);
            }
        }
        assert(!fits(all)) by {
            if fits(all) {
                assert(fits(next));
            }
        }
        if valid_first_scalar(all) {
            assert(fits(next)) by {
                assert(fits(all.take(announced(all[0]))));
            }
        }
    } else {
        assert(all[0] == bad[0]);
        assert(announced(bad[0]) == 0);
    }
}

/// All that is there is the start of a character.
pub proof fn lemma_unfinished(tail: Seq<u8>)
    requires
        tail.len() > 0,
        begins_char(tail),
        forall|c: char| tail != #[trigger] char_bytes(c),
    ensures
        first_piece(tail) is Incomplete,
{
    lemma_first_piece(tail);
    lemma_begins(tail);
    lemma_valid_first(tail);
    if let Piece::Char(c, n) = first_piece(tail) {
        assert(tail.len() <= announced(tail[0]));
        assert(tail.take(n) =~= tail);
        assert(tail == char_bytes(c));
    }
}

/// What a first piece says of the bytes around it.
pub proof fn lemma_piece(bytes: Seq<u8>)
    requires
        bytes.len() > 0,
    ensures
        first_piece(bytes) is Incomplete ==> {
            &&& begins_char(bytes)
            &&& forall|c: char| bytes != #[trigger] char_bytes(c)
        },
        first_piece(bytes) matches Piece::Invalid(n) ==> {
            ||| n == 1 && !begins_char(bytes.take(n))
            ||| {
                &&& begins_char(bytes.take(n))
                &&& forall|c: char| bytes.take(n) != #[trigger] char_bytes(c)
                &&& n < bytes.len()
                &&& !begins_char(bytes.take(n).push(bytes[n]))
            }
        },
{
    lemma_first_piece(bytes);
    lemma_valid_first(bytes);
    lemma_begins(bytes);
    assert forall|c: char, n: int|
        0 <= n <= bytes.len() && bytes.take(n) == #[trigger] char_bytes(c) && #[trigger] bytes.take(
            n,
        ).len() == n implies valid_first_scalar(bytes) by {
        lemma_whole_character(c);
        lemma_valid_first(char_bytes(c));
        let w = announced(bytes[0]);
        assert(bytes.take(n).take(w) =~= bytes.take(w));
    }
    if first_piece(bytes) is Incomplete {
        assert(bytes.take(bytes.len() as int) =~= bytes);
    }
    if let Piece::Invalid(n) = first_piece(bytes) {
        let bad = bytes.take(n);
        lemma_begins(bad);
        if bytes.len() >= 2 {
            lemma_begins(bytes.take(2));
        }
        if bytes.len() >= 3 {
            lemma_begins(bytes.take(3));
        }
        if begins_char(bad) {
            if n == bytes.len() {
                assert(bad =~= bytes);
            } else {
                let next = bad.push(bytes[n]);
                lemma_begins(next);
                assert(next =~= bytes.take(n + 1));
                if n == 3 && fits(next) {
                    assert(next =~= bytes.take(announced(bytes[0])));
                }
            }
        }
    }
}

/// The encoding of a character begins with a whole character.
proof fn lemma_whole_character(c: char)
    ensures
        valid_first_scalar(char_bytes(c)),
        length_of_first_scalar(char_bytes(c)) == char_bytes(c).len(),
{
    lemma_char_bytes(c);
    encode_utf8_first_scalar(seq![c]);
}

/// The text of a byte sequence that is UTF-8.
///
/// Trusts `std::str::from_utf8`: it accepts exactly the bytes that are UTF-8, and the
/// string that it returns holds the characters that they encode.
#[verifier::external_body]
pub(crate) fn utf8_text(bytes: &[u8]) -> (r: Option<&str>)
    ensures
        match r {
            Some(text) => valid_utf8(bytes@) && text@ == decode_utf8(bytes@),
            None => !valid_utf8(bytes@),
        },
{
    std::str::from_utf8(bytes).ok()
}

/// The position behind the run of complete characters that starts at `at`.
pub fn end_of_valid(bytes: &[u8], at: usize) -> (end: usize)
    requires
        at <= bytes.len(),
    ensures
        end == at + valid_len(bytes@.skip(at as int)),
{
    let mut end: usize = at;
    proof {
        lemma_valid_len(bytes@.skip(at as int));
    }
    loop
        invariant
            at <= end <= bytes.len(),
            at + valid_len(bytes@.skip(at as int)) == end + valid_len(bytes@.skip(end as int)),
        ensures
            end == at + valid_len(bytes@.skip(at as int)),
        decreases bytes.len() - end,
    {
        if end == bytes.len() {
            break;
        }
        let ghost tail = bytes@.skip(end as int);
        proof {
            lemma_first_piece(tail);
        }
        match cut_piece(bytes, end) {
            Cut::Char(n) => {
                assert(tail.skip(n as int) =~= bytes@.skip(end + n));
                end = end + n;
            },
            _ => {
                break;
            },
        }
    }
    end
}

} // verus!
