//! What is handed on of a log, told by what its bytes encode.
use vstd::prelude::*;
use vstd::utf8::{decode_utf8, encode_utf8, valid_utf8};

use crate::copying::copies;
use crate::decoder::{
    all_taken, held_back, left_after_refusal, lemma_chunks_do_not_matter, log_texts, refused_at,
    round, stopped, texts, with_attempts, Attempt, Read,
};
use crate::decoder::{next_record, read_log_chunks, LogDecoder, LogSink, ReadOutcome, ReadStep};
use crate::utf8::{
    begins_char, char_bytes, first_piece, incomplete_tail, lemma_after_utf8, lemma_char_bytes,
    lemma_cut_off, lemma_first_piece, lemma_lossy_keeps_utf8, lemma_piece, lemma_records_after_utf8,
    lemma_unfinished, lemma_valid_len, lossy, records, text, Piece,
};
use crate::utf8::{cut_piece, end_of_valid, Cut};

verus! {

/// The bytes that encode a character.
pub open spec fn encoding(c: char) -> Seq<u8> {
    encode_utf8(seq![c])
}

/// Whether bytes are the encoding of a character.
pub open spec fn is_character(bytes: Seq<u8>) -> bool {
    exists|c: char| bytes == #[trigger] encoding(c)
}

/// Whether bytes can go on to be the encoding of a character, or are one.
pub open spec fn starts_character(bytes: Seq<u8>) -> bool {
    exists|c: char| bytes.is_prefix_of(#[trigger] encoding(c))
}

/// Whether bytes are some of a character, but not all.
pub open spec fn is_unfinished(bytes: Seq<u8>) -> bool {
    bytes.len() > 0 && starts_character(bytes) && !is_character(bytes)
}

/// Whether bytes are not UTF-8 where `rest` follows them: one byte that starts no character,
/// or a character that `rest` does not go on with.
pub open spec fn is_broken(bytes: Seq<u8>, rest: Seq<u8>) -> bool {
    ||| bytes.len() == 1 && !starts_character(bytes)
    ||| is_unfinished(bytes) && rest.len() > 0 && !starts_character(bytes.push(rest[0]))
}

/// The text of bytes that are UTF-8, if there are any.
pub open spec fn lead(bytes: Seq<u8>) -> Seq<Seq<char>> {
    if bytes.len() > 0 {
        seq![decode_utf8(bytes)]
    } else {
        seq![]
    }
}

/// Whether a sink that keeps a record was handed these texts, in order, and took them all.
pub open spec fn took<E>(
    before: Option<Seq<Attempt<E>>>,
    after: Option<Seq<Attempt<E>>>,
    handed: Seq<Seq<char>>,
) -> bool {
    before is Some ==> {
        let old_record = before->0;
        let new_record = after->0;
        &&& after is Some
        &&& new_record.len() == old_record.len() + handed.len()
        &&& forall|i: int|
            0 <= i < old_record.len() ==> #[trigger] new_record[i] == old_record[i]
        &&& forall|i: int|
            #![trigger handed[i]]
            0 <= i < handed.len() ==> new_record[old_record.len() + i].text == handed[i]
                && new_record[old_record.len() + i].refusal is None
    }
}

proof fn lemma_took<E>(before: Option<Seq<Attempt<E>>>, handed: Seq<Seq<char>>)
    ensures
        took(before, with_attempts(before, all_taken(handed)), handed),
{
}

proof fn lemma_starts(bytes: Seq<u8>)
    ensures
        starts_character(bytes) <==> begins_char(bytes),
        is_character(bytes) <==> exists|c: char| bytes == #[trigger] char_bytes(c),
{
    assert forall|c: char| #[trigger] encoding(c) == char_bytes(c) by {
        lemma_char_bytes(c);
    }
    assert forall|c: char| encoding(c) == #[trigger] char_bytes(c) by {
        lemma_char_bytes(c);
    }
}

proof fn lemma_texts_of_utf8(bytes: Seq<u8>, finished: bool)
    requires
        valid_utf8(bytes),
    ensures
        texts(bytes, finished) == lead(bytes),
        held_back(bytes, finished).len() == 0,
{
    let none = Seq::<u8>::empty();
    lemma_lossy_keeps_utf8(bytes);
    assert(bytes + none =~= bytes);
    if bytes.len() > 0 {
        lemma_records_after_utf8(bytes, none);
        assert(records(none) =~= Seq::<Seq<char>>::empty());
        assert(records(bytes) =~= lead(bytes));
    }
}

proof fn lemma_texts_of_unfinished(front: Seq<u8>, tail: Seq<u8>, finished: bool)
    requires
        valid_utf8(front),
        is_unfinished(tail),
    ensures
        texts(front + tail, finished) == lead(front) + (if finished {
            seq![seq!['\u{fffd}']]
        } else {
            seq![]
        }),
        held_back(front + tail, finished) == (if finished {
            seq![]
        } else {
            tail
        }),
{
    lemma_starts(tail);
    lemma_unfinished(tail);
    lemma_after_utf8(front, tail);
    assert(records(tail) =~= Seq::<Seq<char>>::empty());
    if front.len() > 0 {
        lemma_records_after_utf8(front, tail);
    } else {
        assert(front + tail =~= tail);
    }
    assert(records(front + tail) =~= lead(front));
    assert(incomplete_tail(front + tail) == tail);
    assert(texts(front + tail, finished) =~= lead(front) + (if finished {
        seq![seq!['\u{fffd}']]
    } else {
        seq![]
    }));
}

proof fn lemma_texts_of_broken(front: Seq<u8>, bad: Seq<u8>, rest: Seq<u8>, finished: bool)
    requires
        valid_utf8(front),
        is_broken(bad, rest),
    ensures
        texts(front + bad + rest, finished) == lead(front) + seq![seq!['\u{fffd}']] + texts(
            rest,
            finished,
        ),
        held_back(front + bad + rest, finished) == held_back(rest, finished),
{
    let more = bad + rest;
    assert(front + bad + rest =~= front + more);
    lemma_starts(bad);
    if rest.len() > 0 {
        lemma_starts(bad.push(rest[0]));
    }
    lemma_cut_off(bad, rest);
    lemma_after_utf8(front, more);
    assert(more.skip(bad.len() as int) =~= rest);
    assert(records(more) =~= seq![seq!['\u{fffd}']] + records(rest));
    if front.len() > 0 {
        lemma_records_after_utf8(front, more);
    } else {
        assert(front + more =~= more);
    }
    assert(records(front + more) =~= lead(front) + seq![seq!['\u{fffd}']] + records(rest));
    assert(incomplete_tail(more) == incomplete_tail(rest));
    assert(texts(front + more, finished) =~= lead(front) + seq![seq!['\u{fffd}']] + texts(
        rest,
        finished,
    ));
}

/// Bytes that are UTF-8 are handed on at once, as the one text that they encode, and nothing
/// is held back.
pub proof fn law_utf8_is_handed_on<S: LogSink>(
    decoder: &mut LogDecoder,
    bytes: &[u8],
    finished: bool,
    sink: &mut S,
    r: Result<(), S::Error>,
)
    requires
        call_ensures(LogDecoder::feed::<S>, (decoder, bytes, finished, sink), r),
        r is Ok,
        valid_utf8(old(decoder)@ + bytes@),
    ensures
        took(old(sink).attempts(), final(sink).attempts(), lead(old(decoder)@ + bytes@)),
        final(decoder)@.len() == 0,
{
    let all = old(decoder)@ + bytes@;
    lemma_texts_of_utf8(all, finished);
    lemma_took(old(sink).attempts(), texts(all, finished));
}

/// An unfinished character at the end is held back as long as the log goes on, and replaced
/// when the log ends.
pub proof fn law_unfinished_end<S: LogSink>(
    decoder: &mut LogDecoder,
    bytes: &[u8],
    finished: bool,
    sink: &mut S,
    r: Result<(), S::Error>,
    front: Seq<u8>,
    tail: Seq<u8>,
)
    requires
        call_ensures(LogDecoder::feed::<S>, (decoder, bytes, finished, sink), r),
        r is Ok,
        old(decoder)@ + bytes@ == front + tail,
        valid_utf8(front),
        is_unfinished(tail),
    ensures
        !finished ==> {
            &&& took(old(sink).attempts(), final(sink).attempts(), lead(front))
            &&& final(decoder)@ == tail
        },
        finished ==> {
            &&& took(
                old(sink).attempts(),
                final(sink).attempts(),
                lead(front) + seq![seq!['\u{fffd}']],
            )
            &&& final(decoder)@.len() == 0
        },
{
    let all = old(decoder)@ + bytes@;
    lemma_texts_of_unfinished(front, tail, finished);
    lemma_took(old(sink).attempts(), texts(all, finished));
    assert(lead(front) + Seq::<Seq<char>>::empty() =~= lead(front));
}

/// Bytes that are not UTF-8 are replaced by one character of their own; what stands before
/// them is handed on as it is, and what follows them as if it stood alone.
pub proof fn law_broken_bytes_are_replaced<S: LogSink>(
    decoder: &mut LogDecoder,
    bytes: &[u8],
    finished: bool,
    sink: &mut S,
    r: Result<(), S::Error>,
    front: Seq<u8>,
    bad: Seq<u8>,
    other: &mut LogDecoder,
    rest: &[u8],
    other_sink: &mut S,
    r_other: Result<(), S::Error>,
)
    requires
        call_ensures(LogDecoder::feed::<S>, (decoder, bytes, finished, sink), r),
        call_ensures(LogDecoder::feed::<S>, (other, rest, finished, other_sink), r_other),
        r is Ok,
        r_other is Ok,
        old(other)@.len() == 0,
        old(decoder)@ + bytes@ == front + bad + rest@,
        valid_utf8(front),
        is_broken(bad, rest@),
        old(sink).attempts() is Some,
        old(other_sink).attempts() is Some,
    ensures
        final(decoder)@ == final(other)@,
        ({
            let handed = final(sink).attempts()->0.skip(old(sink).attempts()->0.len() as int);
            let handed_rest = final(other_sink).attempts()->0.skip(
                old(other_sink).attempts()->0.len() as int,
            );
            let first = lead(front) + seq![seq!['\u{fffd}']];
            &&& took(
                Some(old(sink).attempts()->0),
                Some(final(sink).attempts()->0.take(
                    old(sink).attempts()->0.len() as int + first.len() as int,
                )),
                first,
            )
            &&& handed.skip(first.len() as int) == handed_rest
        }),
{
    let all = old(decoder)@ + bytes@;
    assert(old(other)@ + rest@ =~= rest@);
    lemma_texts_of_broken(front, bad, rest@, finished);
    let before = old(sink).attempts()->0;
    let after = final(sink).attempts()->0;
    let first = lead(front) + seq![seq!['\u{fffd}']];
    let n = before.len() as int + first.len() as int;
    let last = texts(rest@, finished);
    assert(texts(all, finished) == first + last);
    assert(after.take(n) =~= before + all_taken::<S::Error>(first));
    lemma_took(Some(before), first);
    let before_rest = old(other_sink).attempts()->0;
    let after_rest = final(other_sink).attempts()->0;
    assert(after_rest.skip(before_rest.len() as int) =~= all_taken::<S::Error>(last));
    assert(after.skip(before.len() as int).skip(first.len() as int) =~= all_taken::<S::Error>(
        last,
    ));
}

/// A sink that never refuses a text never makes a call fail, whatever the bytes are.
pub proof fn law_bytes_alone_never_fail<S: LogSink>(
    decoder: &mut LogDecoder,
    bytes: &[u8],
    finished: bool,
    sink: &mut S,
    r: Result<(), S::Error>,
)
    requires
        call_ensures(LogDecoder::feed::<S>, (decoder, bytes, finished, sink), r),
        forall|text: Seq<char>, error: S::Error| !S::may_refuse(text, error),
    ensures
        r is Ok,
{
}

/// The first refusal ends a call and is what it returns: the texts before it were taken,
/// they and the refused one are the first that a call that meets no refusal hands on, and
/// nothing comes after them. The bytes stay held back, but for those that were handed on
/// before the replacement of an unfinished end was refused.
pub proof fn law_first_refusal_is_returned<S: LogSink>(
    decoder: &mut LogDecoder,
    bytes: &[u8],
    finished: bool,
    sink: &mut S,
    error: S::Error,
    other: &mut LogDecoder,
    other_sink: &mut S,
    third: &mut LogDecoder,
    third_sink: &mut S,
)
    requires
        call_ensures(LogDecoder::feed::<S>, (decoder, bytes, finished, sink), Err(error)),
        call_ensures(LogDecoder::feed::<S>, (other, bytes, finished, other_sink), Ok(())),
        call_ensures(LogDecoder::feed::<S>, (third, bytes, false, third_sink), Ok(())),
        old(other)@ == old(decoder)@,
        old(third)@ == old(decoder)@,
        old(sink).attempts() is Some,
        old(other_sink).attempts() is Some,
    ensures
        ({
            let old_record = old(sink).attempts()->0;
            let new_record = final(sink).attempts()->0;
            let tried = new_record.skip(old_record.len() as int);
            let handed = final(other_sink).attempts()->0.skip(
                old(other_sink).attempts()->0.len() as int,
            );
            &&& final(sink).attempts() is Some
            &&& old_record.is_prefix_of(new_record)
            &&& 0 < tried.len() <= handed.len()
            &&& tried.last().refusal == Some(error)
            &&& forall|i: int|
                0 <= i < tried.len() - 1 ==> (#[trigger] tried[i]).refusal is None
            &&& forall|i: int|
                0 <= i < tried.len() ==> (#[trigger] tried[i]).text == handed[i].text
            &&& final(decoder)@ == (if finished && final(third)@.len() > 0 && tried.len()
                == handed.len() {
                final(third)@
            } else {
                old(decoder)@ + bytes@
            })
        }),
{
    let all = old(decoder)@ + bytes@;
    let handed = texts(all, finished);
    let before = old(other_sink).attempts()->0;
    assert(final(other_sink).attempts()->0.skip(before.len() as int) =~= all_taken::<S::Error>(
        handed,
    ));
    assert(stopped::<S>(
        all,
        finished,
        error,
        old(sink).attempts(),
        final(sink).attempts(),
        final(decoder)@,
    ));
    let n = choose|n: int|
        {
            &&& 0 <= n < handed.len()
            &&& final(sink).attempts() == with_attempts(
                old(sink).attempts(),
                #[trigger] refused_at(handed, n, error),
            )
            &&& final(decoder)@ == left_after_refusal(all, n)
        };
    assert(final(sink).attempts()->0.skip(old(sink).attempts()->0.len() as int)
        =~= refused_at(handed, n, error));
}

/// A read that was interrupted changes nothing and is made again; one that failed changes
/// nothing and is reported.
pub proof fn law_reads_without_bytes<S: LogSink>(
    decoder: &mut LogDecoder,
    outcome: ReadOutcome<'_, S::Error>,
    sink: &mut S,
    r: Result<ReadStep, S::Error>,
)
    requires
        call_ensures(read_log_chunks::<S>, (decoder, outcome, sink), r),
        outcome !is Bytes,
    ensures
        final(decoder)@ == old(decoder)@,
        *final(sink) == *old(sink),
        outcome is Interrupted ==> r == Ok::<ReadStep, S::Error>(ReadStep::ReadAgain),
        outcome matches ReadOutcome::Failed(error) ==> r == Err::<ReadStep, S::Error>(error),
{
}

/// A read of no bytes ends the copy, whatever was held back; any other asks for the next
/// read. That is so unless a text is refused.
pub proof fn law_empty_read_ends_the_log<S: LogSink>(
    decoder: &mut LogDecoder,
    bytes: &[u8],
    sink: &mut S,
    r: Result<ReadStep, S::Error>,
)
    requires
        call_ensures(read_log_chunks::<S>, (decoder, ReadOutcome::Bytes(bytes), sink), r),
    ensures
        r is Ok && bytes@.len() == 0 ==> {
            &&& r == Ok::<ReadStep, S::Error>(ReadStep::Finished)
            &&& final(decoder)@.len() == 0
        },
        r is Ok && bytes@.len() > 0 ==> r == Ok::<ReadStep, S::Error>(ReadStep::ReadAgain),
        (forall|text: Seq<char>, error: S::Error| !S::may_refuse(text, error)) ==> r is Ok,
{
}

/// The bytes of a read are handed on as the decoder hands them on; the read of no bytes is
/// the end of the log.
pub proof fn law_read_bytes_are_fed<S: LogSink>(
    decoder: &mut LogDecoder,
    bytes: &[u8],
    sink: &mut S,
    step: ReadStep,
    other: &mut LogDecoder,
    other_sink: &mut S,
)
    requires
        call_ensures(
            read_log_chunks::<S>,
            (decoder, ReadOutcome::Bytes(bytes), sink),
            Ok::<ReadStep, S::Error>(step),
        ),
        call_ensures(
            LogDecoder::feed::<S>,
            (other, bytes, bytes@.len() == 0, other_sink),
            Ok::<(), S::Error>(()),
        ),
        old(decoder)@ == old(other)@,
        old(sink).attempts() == old(other_sink).attempts(),
    ensures
        final(decoder)@ == final(other)@,
        final(sink).attempts() == final(other_sink).attempts(),
{
}

/// A refusal is reported by the round that meets it, as the decoder reports it.
pub proof fn law_read_reports_the_refusal<S: LogSink>(
    decoder: &mut LogDecoder,
    bytes: &[u8],
    sink: &mut S,
    error: S::Error,
)
    requires
        call_ensures(read_log_chunks::<S>, (decoder, ReadOutcome::Bytes(bytes), sink), Err(error)),
        old(sink).attempts() is Some,
    ensures
        final(sink).attempts() is Some,
        old(sink).attempts()->0.len() < final(sink).attempts()->0.len(),
        old(sink).attempts()->0.is_prefix_of(final(sink).attempts()->0),
        final(sink).attempts()->0.last().refusal == Some(error),
        forall|i: int|
            old(sink).attempts()->0.len() <= i < final(sink).attempts()->0.len() - 1 ==> (
            #[trigger] final(sink).attempts()->0[i]).refusal is None,
{
}

/// The reads of a log that is cut into chunks: the chunks, then no bytes.
pub open spec fn reads_of<E>(chunks: Seq<Seq<u8>>) -> Seq<Read<E>> {
    Seq::new(
        chunks.len() + 1,
        |i: int|
            if i < chunks.len() {
                Read::Bytes(chunks[i])
            } else {
                Read::Bytes(seq![])
            },
    )
}

/// Each call is a round of a copy.
pub proof fn law_call_is_a_round<S: LogSink>(
    decoder: &mut LogDecoder,
    outcome: ReadOutcome<'_, S::Error>,
    sink: &mut S,
    r: Result<ReadStep, S::Error>,
)
    requires
        call_ensures(read_log_chunks::<S>, (decoder, outcome, sink), r),
    ensures
        round::<S>(outcome@, old(decoder)@, *old(sink), r, final(decoder)@, *final(sink)),
{
}

/// A log that is cut into chunks, with a sink that takes every text, is copied to its end,
/// and nothing of it is held back. What was handed on, put together, is what its bytes
/// encode; where they are not UTF-8, what is left of them by replacement.
pub proof fn law_whole_log_is_copied<S: LogSink>(
    chunks: Seq<Seq<u8>>,
    held: Seq<u8>,
    sink: S,
    r: Result<ReadStep, S::Error>,
    held_after: Seq<u8>,
    sink_after: S,
)
    requires
        forall|i: int| 0 <= i < chunks.len() ==> (#[trigger] chunks[i]).len() > 0,
        forall|text: Seq<char>, error: S::Error| !S::may_refuse(text, error),
        copies::<S>(reads_of(chunks), held, sink, r, held_after, sink_after),
    ensures
        r == Ok::<ReadStep, S::Error>(ReadStep::Finished),
        held_after.len() == 0,
        took(sink.attempts(), sink_after.attempts(), log_texts(held, chunks)),
        log_texts(held, chunks).flatten() == lossy(held + chunks.flatten()),
        valid_utf8(held + chunks.flatten()) ==> log_texts(held, chunks).flatten() == decode_utf8(
            held + chunks.flatten(),
        ),
    decreases chunks.len(),
{
    let reads = reads_of::<S::Error>(chunks);
    let again = Ok::<ReadStep, S::Error>(ReadStep::ReadAgain);
    lemma_chunks_do_not_matter(held, chunks);
    if valid_utf8(held + chunks.flatten()) {
        lemma_lossy_keeps_utf8(held + chunks.flatten());
    }
    let (step, h, s) = choose|step: Result<ReadStep, S::Error>, h: Seq<u8>, s: S|
        {
            &&& #[trigger] round::<S>(reads[0], held, sink, step, h, s)
            &&& if step == again {
                copies::<S>(reads.drop_first(), h, s, r, held_after, sink_after)
            } else {
                &&& r == step
                &&& held_after == h
                &&& sink_after == s
            }
        };
    if chunks.len() == 0 {
        assert(held + Seq::<u8>::empty() =~= held);
        lemma_took(sink.attempts(), log_texts(held, chunks));
    } else {
        let rest = chunks.drop_first();
        let all = held + chunks[0];
        assert(reads.drop_first() =~= reads_of::<S::Error>(rest));
        assert forall|i: int| 0 <= i < rest.len() implies (#[trigger] rest[i]).len() > 0 by {
            assert(rest[i] == chunks[i + 1]);
        }
        law_whole_log_is_copied::<S>(rest, h, s, r, held_after, sink_after);
        lemma_took(sink.attempts(), texts(all, false));
        lemma_took_in_turn(
            sink.attempts(),
            s.attempts(),
            sink_after.attempts(),
            texts(all, false),
            log_texts(h, rest),
        );
    }
}

proof fn lemma_took_in_turn<E>(
    first: Option<Seq<Attempt<E>>>,
    second: Option<Seq<Attempt<E>>>,
    third: Option<Seq<Attempt<E>>>,
    handed: Seq<Seq<char>>,
    more: Seq<Seq<char>>,
)
    requires
        took(first, second, handed),
        took(second, third, more),
    ensures
        took(first, third, handed + more),
{
    if first is Some {
        let all = handed + more;
        let n = first->0.len();
        assert forall|i: int|
            #![trigger all[i]]
            0 <= i < all.len() implies third->0[n + i].text == all[i] && third->0[n
            + i].refusal is None by {
            if i < handed.len() {
                assert(all[i] == handed[i]);
                assert(third->0[n + i] == second->0[n + i]);
            } else {
                assert(all[i] == more[i - handed.len()]);
            }
        }
        assert forall|i: int| 0 <= i < n implies #[trigger] third->0[i] == first->0[i] by {
            assert(third->0[i] == second->0[i]);
        }
    }
}

/// What replacement leaves of bytes: what is UTF-8 is kept, each part that is not becomes
/// one character, and so does an unfinished end.
pub proof fn law_replacement(front: Seq<u8>, bad: Seq<u8>, rest: Seq<u8>)
    requires
        valid_utf8(front),
    ensures
        lossy(front) == decode_utf8(front),
        is_unfinished(bad) ==> lossy(front + bad) == decode_utf8(front) + seq!['\u{fffd}'],
        is_broken(bad, rest) ==> lossy(front + bad + rest) == decode_utf8(front) + seq![
            '\u{fffd}',
        ] + lossy(rest),
{
    lemma_lossy_keeps_utf8(front);
    if is_unfinished(bad) {
        lemma_starts(bad);
        lemma_unfinished(bad);
        lemma_after_utf8(front, bad);
        assert(lossy(front + bad) =~= decode_utf8(front) + seq!['\u{fffd}']);
    }
    if is_broken(bad, rest) {
        let more = bad + rest;
        assert(front + bad + rest =~= front + more);
        lemma_starts(bad);
        if rest.len() > 0 {
            lemma_starts(bad.push(rest[0]));
        }
        lemma_cut_off(bad, rest);
        lemma_after_utf8(front, more);
        assert(more.skip(bad.len() as int) =~= rest);
        assert(text(more) =~= seq!['\u{fffd}'] + text(rest));
        assert(lossy(front + more) =~= decode_utf8(front) + seq!['\u{fffd}'] + lossy(rest));
    }
}

/// A piece is a character, the unfinished character at the end, or bytes that are not UTF-8.
pub proof fn law_cut_piece(bytes: &[u8], at: usize, cut: Cut)
    requires
        call_ensures(cut_piece, (bytes, at), cut),
        at < bytes@.len(),
    ensures
        ({
            let left = bytes@.skip(at as int);
            match cut {
                Cut::Char(n) => n <= left.len() && is_character(left.take(n as int)),
                Cut::Invalid(n) => 0 < n <= left.len() && is_broken(
                    left.take(n as int),
                    left.skip(n as int),
                ),
                Cut::Incomplete => is_unfinished(left),
            }
        }),
{
    let left = bytes@.skip(at as int);
    lemma_first_piece(left);
    lemma_piece(left);
    lemma_starts(left);
    match first_piece(left) {
        Piece::Char(c, n) => {
            lemma_starts(left.take(n));
        },
        Piece::Invalid(n) => {
            lemma_starts(left.take(n));
            if n < left.len() {
                lemma_starts(left.take(n).push(left[n]));
                assert(left.skip(n)[0] == left[n]);
            }
        },
        Piece::Incomplete => {},
    }
}

/// The run of characters from a position on is the longest part there that is UTF-8.
pub proof fn law_end_of_valid(bytes: &[u8], at: usize, end: usize, other: int)
    requires
        call_ensures(end_of_valid, (bytes, at), end),
        at <= bytes@.len(),
    ensures
        at <= end <= bytes@.len(),
        valid_utf8(bytes@.subrange(at as int, end as int)),
        end < other <= bytes@.len() ==> !valid_utf8(bytes@.subrange(at as int, other)),
{
    let left = bytes@.skip(at as int);
    lemma_valid_len(left);
    assert(bytes@.subrange(at as int, end as int) =~= left.take(end - at));
    if end < other <= bytes@.len() {
        assert(bytes@.subrange(at as int, other) =~= left.take(other - at));
    }
}

/// The next text is the longest run of characters there, or the replacement of bytes that
/// are not UTF-8; there is none at the end and at an unfinished character at the end.
pub proof fn law_next_record(bytes: &[u8], at: usize, r: Option<(&str, usize)>, other: int)
    requires
        call_ensures(next_record, (bytes, at), r),
        at <= bytes@.len(),
    ensures
        r is None ==> at == bytes@.len() || is_unfinished(bytes@.skip(at as int)),
        r matches Some((text, next)) ==> {
            let part = bytes@.subrange(at as int, next as int);
            &&& at < next <= bytes@.len()
            &&& {
                ||| {
                    &&& valid_utf8(part)
                    &&& text@ == decode_utf8(part)
                    &&& next < other <= bytes@.len() ==> !valid_utf8(
                        bytes@.subrange(at as int, other),
                    )
                }
                ||| {
                    &&& is_broken(part, bytes@.skip(next as int))
                    &&& text@ == seq!['\u{fffd}']
                }
            }
        },
{
    let left = bytes@.skip(at as int);
    lemma_valid_len(left);
    if at < bytes@.len() {
        lemma_first_piece(left);
        lemma_piece(left);
        lemma_starts(left);
        if let Piece::Char(_, n) = first_piece(left) {
            lemma_valid_len(left.skip(n));
        }
        if let Piece::Invalid(n) = first_piece(left) {
            lemma_starts(left.take(n));
            assert(bytes@.subrange(at as int, at + n) =~= left.take(n));
            assert(bytes@.skip(at + n) =~= left.skip(n));
            if n < left.len() {
                lemma_starts(left.take(n).push(left[n]));
                assert(left.skip(n)[0] == left[n]);
            }
        }
    }
    if let Some((text, next)) = r {
        assert(bytes@.subrange(at as int, next as int) =~= left.take(next - at));
        if next < other <= bytes@.len() {
            assert(bytes@.subrange(at as int, other) =~= left.take(other - at));
        }
    } else if at < bytes@.len() {
        assert(incomplete_tail(left) == left && records(left).len() == 0);
    }
}

/// A vector records what it collects: every text that it holds was handed on to it and
/// taken.
pub proof fn law_collected_texts(collected: Vec<String>, i: int)
    requires
        0 <= i < collected@.len(),
    ensures
        collected.attempts() is Some,
        collected.attempts()->0.len() == collected@.len(),
        collected.attempts()->0[i].text == collected@[i]@,
        collected.attempts()->0[i].refusal is None,
        forall|text: Seq<char>, error: ()| !<Vec<String> as LogSink>::may_refuse(text, error),
{
}

/// A new decoder holds nothing back.
pub proof fn law_new_decoder(decoder: LogDecoder)
    requires
        call_ensures(LogDecoder::default, (), decoder),
    ensures
        decoder@.len() == 0,
{
}

} // verus!
