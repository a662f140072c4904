//! Log output as it is read: bytes in chunks of any size, texts out.
//!
//! Characters whose bytes are split across chunks are kept whole. Bytes that are not
//! UTF-8 are replaced.
use vstd::prelude::*;
use vstd::seq_lib::lemma_flatten_concat;
use vstd::slice::slice_subrange;
use vstd::utf8::{decode_utf8, valid_utf8};

use crate::utf8::{cut_piece, end_of_valid, utf8_text, Cut};
use crate::utf8::{
    first_piece, incomplete_tail, lemma_cut_anywhere, lemma_first_piece, lemma_incomplete_tail,
    lemma_lossy_keeps_utf8, lemma_records_are_text, lemma_valid_len, lossy, records, text,
    valid_len, Piece, REPLACEMENT,
};

verus! {

/// Decodes a stream of bytes chunk by chunk.
pub struct LogDecoder {
    pending: Vec<u8>,
}

impl View for LogDecoder {
    type V = Seq<u8>;

    /// The bytes that are held back for the next chunk.
    closed spec fn view(&self) -> Seq<u8> {
        self.pending@
    }
}

/// The texts that are handed on for `bytes`, of which nothing was handed on before.
pub open spec fn texts(bytes: Seq<u8>, finished: bool) -> Seq<Seq<char>> {
    if finished && incomplete_tail(bytes).len() > 0 {
        records(bytes).push(seq![REPLACEMENT])
    } else {
        records(bytes)
    }
}

/// The bytes that are held back once the texts of `bytes` were handed on.
pub open spec fn held_back(bytes: Seq<u8>, finished: bool) -> Seq<u8> {
    if finished {
        seq![]
    } else {
        incomplete_tail(bytes)
    }
}

/// A text that was handed to a sink, and the error that it was refused with, if it was.
pub struct Attempt<E> {
    pub text: Seq<char>,
    pub refusal: Option<E>,
}

/// Where texts are handed on to, one after the other.
pub trait LogSink: Sized {
    /// Why a text was refused.
    type Error;

    /// All that was handed to the sink so far, in order; none where the sink keeps no record
    /// of it.
    open spec fn attempts(&self) -> Option<Seq<Attempt<Self::Error>>> {
        None
    }

    /// Whether a sink of this kind may refuse a text with this error.
    open spec fn may_refuse(text: Seq<char>, error: Self::Error) -> bool {
        true
    }

    /// Takes one text, or refuses it.
    fn emit(&mut self, text: &str) -> (r: Result<(), Self::Error>)
        ensures
            r matches Err(error) ==> Self::may_refuse(text@, error),
            final(self).attempts() == with_attempts(
                old(self).attempts(),
                seq![Attempt { text: text@, refusal: refusal(r) }],
            ),
    ;
}

/// The error of a result, if it has one.
pub open spec fn refusal<E>(r: Result<(), E>) -> Option<E> {
    match r {
        Ok(_) => None,
        Err(error) => Some(error),
    }
}

/// The record of a sink that goes on from `record`.
pub open spec fn with_attempts<E>(
    record: Option<Seq<Attempt<E>>>,
    more: Seq<Attempt<E>>,
) -> Option<Seq<Attempt<E>>> {
    match record {
        Some(attempts) => Some(attempts + more),
        None => None,
    }
}

/// Every text is handed on once, in order, and taken.
pub open spec fn all_taken<E>(texts: Seq<Seq<char>>) -> Seq<Attempt<E>> {
    Seq::new(texts.len(), |i: int| Attempt { text: texts[i], refusal: None })
}

/// The first `n` texts are handed on, in order, and taken; the next one is handed on once
/// and refused; none is handed on after it.
pub open spec fn refused_at<E>(texts: Seq<Seq<char>>, n: int, error: E) -> Seq<Attempt<E>> {
    all_taken(texts.take(n)).push(Attempt { text: texts[n], refusal: Some(error) })
}

/// The bytes that are held back once the text at position `n` of `bytes` was refused: all of
/// them, or, where that text is the replacement of an incomplete end, that end.
pub open spec fn left_after_refusal(bytes: Seq<u8>, n: int) -> Seq<u8> {
    if n < records(bytes).len() {
        bytes
    } else {
        incomplete_tail(bytes)
    }
}

/// What holds when a sink refused one of the texts of `bytes` with that error: its record
/// goes on from `before` to `after` with the texts up to that one, and `left` is held back.
pub open spec fn stopped<S: LogSink>(
    bytes: Seq<u8>,
    finished: bool,
    error: S::Error,
    before: Option<Seq<Attempt<S::Error>>>,
    after: Option<Seq<Attempt<S::Error>>>,
    left: Seq<u8>,
) -> bool {
    exists|n: int|
        {
            &&& 0 <= n < texts(bytes, finished).len()
            &&& S::may_refuse(texts(bytes, finished)[n], error)
            &&& after == with_attempts(
                before,
                #[trigger] refused_at(texts(bytes, finished), n, error),
            )
            &&& left == left_after_refusal(bytes, n)
        }
}

/// A call that fails does so on the first refusal and returns its error: what was handed on
/// before it was taken, and nothing is handed on after it.
pub proof fn lemma_first_refusal_is_returned<S: LogSink>(
    bytes: Seq<u8>,
    finished: bool,
    error: S::Error,
    before: Seq<Attempt<S::Error>>,
    after: Seq<Attempt<S::Error>>,
    left: Seq<u8>,
)
    requires
        stopped::<S>(bytes, finished, error, Some(before), Some(after), left),
    ensures
        before.len() < after.len() <= before.len() + texts(bytes, finished).len(),
        before.is_prefix_of(after),
        after.last().refusal == Some(error),
        forall|i: int|
            before.len() <= i < after.len() ==> {
                &&& (#[trigger] after[i]).text == texts(bytes, finished)[i - before.len()]
                &&& i < after.len() - 1 ==> after[i].refusal is None
            },
{
}

/// A call that succeeds met no refusal.
pub proof fn lemma_success_without_refusal<E>(
    texts: Seq<Seq<char>>,
    before: Seq<Attempt<E>>,
    after: Seq<Attempt<E>>,
)
    requires
        Some(after) == with_attempts(Some(before), all_taken(texts)),
    ensures
        after.len() == before.len() + texts.len(),
        before.is_prefix_of(after),
        forall|i: int|
            before.len() <= i < after.len() ==> {
                &&& (#[trigger] after[i]).text == texts[i - before.len()]
                &&& after[i].refusal is None
            },
{
}

proof fn lemma_attempts_in_turn<E>(
    record: Option<Seq<Attempt<E>>>,
    first: Seq<Attempt<E>>,
    second: Seq<Attempt<E>>,
)
    ensures
        with_attempts(with_attempts(record, first), second) == with_attempts(
            record,
            first + second,
        ),
{
    if record is Some {
        assert((record->0 + first) + second =~= record->0 + (first + second));
    }
}

/// One more text is taken.
proof fn lemma_taken_next<E>(record: Option<Seq<Attempt<E>>>, sent: Seq<Seq<char>>, text: Seq<char>)
    ensures
        with_attempts(
            with_attempts(record, all_taken(sent)),
            seq![Attempt { text, refusal: None }],
        ) == with_attempts(record, all_taken(sent.push(text))),
{
    let next = seq![Attempt::<E> { text, refusal: None }];
    lemma_attempts_in_turn(record, all_taken(sent), next);
    assert(all_taken::<E>(sent) + next =~= all_taken(sent.push(text)));
}

/// The text behind those that were taken is refused.
proof fn lemma_refused_next<E>(
    record: Option<Seq<Attempt<E>>>,
    sent: Seq<Seq<char>>,
    text: Seq<char>,
    texts: Seq<Seq<char>>,
    error: E,
)
    requires
        sent.push(text).is_prefix_of(texts),
    ensures
        with_attempts(
            with_attempts(record, all_taken(sent)),
            seq![Attempt { text, refusal: Some(error) }],
        ) == with_attempts(record, refused_at(texts, sent.len() as int, error)),
{
    let next = seq![Attempt { text, refusal: Some(error) }];
    lemma_attempts_in_turn(record, all_taken(sent), next);
    assert(sent.push(text).last() == text);
    assert(texts.take(sent.len() as int) =~= sent);
    assert(all_taken(sent) + next =~= refused_at(texts, sent.len() as int, error));
}

/// Collects the texts; never refuses one.
impl LogSink for Vec<String> {
    type Error = ();

    open spec fn attempts(&self) -> Option<Seq<Attempt<()>>> {
        Some(all_taken(self@.map_values(|text: String| text@)))
    }

    open spec fn may_refuse(text: Seq<char>, error: ()) -> bool {
        false
    }

    fn emit(&mut self, text: &str) -> (r: Result<(), ()>) {
        self.push(text.to_owned());
        assert(self.attempts()->0 =~= old(self).attempts()->0 + seq![
            Attempt { text: text@, refusal: None },
        ]);
        Ok(())
    }
}

/// The next text of `bytes` from `at` on, and the position behind it; none when what is
/// left is nothing, or the start of a character.
pub fn next_record(bytes: &[u8], at: usize) -> (r: Option<(&str, usize)>)
    requires
        at <= bytes.len(),
    ensures
        match r {
            Some((text, next)) => {
                &&& at < next <= bytes.len()
                &&& records(bytes@.skip(at as int)) == seq![text@] + records(
                    bytes@.skip(next as int),
                )
                &&& incomplete_tail(bytes@.skip(at as int)) == incomplete_tail(
                    bytes@.skip(next as int),
                )
                &&& if valid_len(bytes@.skip(at as int)) > 0 {
                    &&& next == at + valid_len(bytes@.skip(at as int))
                    &&& text@ == decode_utf8(bytes@.subrange(at as int, next as int))
                } else {
                    &&& first_piece(bytes@.skip(at as int)) == Piece::Invalid(next - at)
                    &&& text@ == seq![REPLACEMENT]
                }
            },
            None => {
                &&& records(bytes@.skip(at as int)) == Seq::<Seq<char>>::empty()
                &&& incomplete_tail(bytes@.skip(at as int)) == bytes@.skip(at as int)
            },
        },
{
    let ghost left = bytes@.skip(at as int);
    if at == bytes.len() {
        assert(left =~= incomplete_tail(left));
        return None;
    }
    proof {
        lemma_valid_len(left);
        lemma_first_piece(left);
        if let Piece::Char(_, n) = first_piece(left) {
            lemma_valid_len(left.skip(n));
        }
    }
    let end = end_of_valid(bytes, at);
    if end > at {
        let run = slice_subrange(bytes, at, end);
        assert(run@ =~= left.take(valid_len(left)));
        assert(run@ =~= bytes@.subrange(at as int, end as int));
        assert(left.skip(valid_len(left)) =~= bytes@.skip(end as int));
        return match utf8_text(run) {
            Some(valid) => Some((valid, end)),
            None => None,
        };
    }
    match cut_piece(bytes, at) {
        Cut::Invalid(length) => {
            proof {
                reveal_strlit("\u{fffd}");
                assert("\u{fffd}"@ =~= seq![REPLACEMENT]);
                assert(left.skip(length as int) =~= bytes@.skip(at + length));
            }
            Some(("\u{fffd}", at + length))
        },
        _ => None,
    }
}

impl Default for LogDecoder {
    fn default() -> (decoder: Self)
        ensures
            decoder@ == Seq::<u8>::empty(),
    {
        LogDecoder { pending: Vec::new() }
    }
}

impl LogDecoder {
    /// Takes a chunk and hands each text that it completes to `sink`; the last chunk is
    /// marked by `finished`.
    ///
    /// The first refusal ends the call: its error is returned, and no text is handed on
    /// after it. Nothing else makes the call fail.
    pub fn feed<S: LogSink>(&mut self, bytes: &[u8], finished: bool, sink: &mut S) -> (r: Result<
        (),
        S::Error,
    >)
        ensures
            r is Ok ==> {
                let all = old(self)@ + bytes@;
                &&& final(sink).attempts() == with_attempts(
                    old(sink).attempts(),
                    all_taken(texts(all, finished)),
                )
                &&& final(self)@ == held_back(all, finished)
                &&& final(self)@.len() <= 3
            },
            r matches Err(error) ==> stopped::<S>(
                old(self)@ + bytes@,
                finished,
                error,
                old(sink).attempts(),
                final(sink).attempts(),
                final(self)@,
            ),
    {
        let ghost all = self@ + bytes@;
        let ghost before = sink.attempts();
        self.pending.extend_from_slice(bytes);
        assert(self.pending@ =~= all);
        let mut offset: usize = 0;
        let ghost mut sent: Seq<Seq<char>> = seq![];
        proof {
            assert(all.skip(0) =~= all);
            assert(sent + records(all) =~= records(all));
            assert(with_attempts(before, all_taken(sent)) =~= before) by {
                if before is Some {
                    assert(before->0 + all_taken(sent) =~= before->0);
                }
            }
            lemma_incomplete_tail(all);
        }
        loop
            invariant
                self.pending@ == all,
                offset <= all.len(),
                records(all) == sent + records(all.skip(offset as int)),
                incomplete_tail(all) == incomplete_tail(all.skip(offset as int)),
                sink.attempts() == with_attempts(before, all_taken(sent)),
                all == old(self)@ + bytes@,
                before == old(sink).attempts(),
            ensures
                self.pending@ == all,
                offset <= all.len(),
                records(all) == sent,
                incomplete_tail(all) == all.skip(offset as int),
                sink.attempts() == with_attempts(before, all_taken(sent)),
            decreases all.len() - offset,
        {
            let (record, next) = match next_record(self.pending.as_slice(), offset) {
                Some(found) => found,
                None => {
                    assert(sent + Seq::<Seq<char>>::empty() =~= sent);
                    break;
                },
            };
            let ghost done = sent.push(record@);
            assert(records(all) =~= done + records(all.skip(next as int)));
            match sink.emit(record) {
                Ok(()) => {},
                Err(error) => {
                    proof {
                        lemma_refused_next(before, sent, record@, texts(all, finished), error);
                    }
                    return Err(error);
                },
            }
            proof {
                lemma_taken_next(before, sent, record@);
                sent = done;
            }
            offset = next;
        }
        let rest = self.pending.split_off(offset);
        self.pending = rest;
        assert(self.pending@ =~= incomplete_tail(all));
        if finished && self.pending.len() > 0 {
            proof {
                reveal_strlit("\u{fffd}");
                assert("\u{fffd}"@ =~= seq![REPLACEMENT]);
            }
            match sink.emit("\u{fffd}") {
                Ok(()) => {},
                Err(error) => {
                    proof {
                        lemma_refused_next(
                            before,
                            sent,
                            seq![REPLACEMENT],
                            texts(all, finished),
                            error,
                        );
                    }
                    return Err(error);
                },
            }
            proof {
                lemma_taken_next(before, sent, seq![REPLACEMENT]);
            }
            self.pending.clear();
        }
        Ok(())
    }
}

/// What reading the next chunk of a log came to.
pub enum ReadOutcome<'a, E> {
    /// The read was interrupted before anything was read.
    Interrupted,
    /// The read failed.
    Failed(E),
    /// The bytes that were read; none at the end of the log.
    Bytes(&'a [u8]),
}

/// What a read came to, with the bytes as a sequence.
pub enum Read<E> {
    Interrupted,
    Failed(E),
    Bytes(Seq<u8>),
}

impl<'a, E> View for ReadOutcome<'a, E> {
    type V = Read<E>;

    open spec fn view(&self) -> Read<E> {
        match *self {
            ReadOutcome::Interrupted => Read::Interrupted,
            ReadOutcome::Failed(error) => Read::Failed(error),
            ReadOutcome::Bytes(bytes) => Read::Bytes(bytes@),
        }
    }
}

/// What to do after a chunk was dealt with.
#[derive(Clone, Copy, Debug, PartialEq, Eq, Structural)]
pub enum ReadStep {
    /// Read the next chunk.
    ReadAgain,
    /// The log is at its end.
    Finished,
}

/// What one round of copying a log does, with a decoder that holds `held` back and a sink.
///
/// An interrupted read leaves both alone and asks for another read. A failed read leaves
/// both alone and is reported. Bytes are decoded, no bytes mean the end of the log, and a
/// refusal is reported.
pub open spec fn round<S: LogSink>(
    read: Read<S::Error>,
    held: Seq<u8>,
    sink: S,
    r: Result<ReadStep, S::Error>,
    held_after: Seq<u8>,
    sink_after: S,
) -> bool {
    match read {
        Read::Interrupted => {
            &&& r == Ok::<ReadStep, S::Error>(ReadStep::ReadAgain)
            &&& held_after == held
            &&& sink_after == sink
        },
        Read::Failed(error) => {
            &&& r == Err::<ReadStep, S::Error>(error)
            &&& held_after == held
            &&& sink_after == sink
        },
        Read::Bytes(bytes) => {
            let all = held + bytes;
            let finished = bytes.len() == 0;
            match r {
                Ok(step) => {
                    &&& step == (if finished {
                        ReadStep::Finished
                    } else {
                        ReadStep::ReadAgain
                    })
                    &&& sink_after.attempts() == with_attempts(
                        sink.attempts(),
                        all_taken(texts(all, finished)),
                    )
                    &&& held_after == held_back(all, finished)
                },
                Err(error) => stopped::<S>(
                    all,
                    finished,
                    error,
                    sink.attempts(),
                    sink_after.attempts(),
                    held_after,
                ),
            }
        },
    }
}

/// One round of copying a log from a reader to a sink: deals with what a read came to, and
/// says whether to read again. A log is copied by calling it until it fails or says that
/// the log is at its end.
///
/// The first refusal of `sink` is returned as the error: no text is handed on after it, and
/// it does not ask for another read.
pub fn read_log_chunks<S: LogSink>(
    decoder: &mut LogDecoder,
    outcome: ReadOutcome<'_, S::Error>,
    sink: &mut S,
) -> (r: Result<ReadStep, S::Error>)
    ensures
        round::<S>(outcome@, old(decoder)@, *old(sink), r, final(decoder)@, *final(sink)),
        outcome is Bytes && r is Ok ==> final(decoder)@.len() <= 3,
{
    match outcome {
        ReadOutcome::Interrupted => Ok(ReadStep::ReadAgain),
        ReadOutcome::Failed(error) => Err(error),
        ReadOutcome::Bytes(bytes) => {
            let finished = bytes.len() == 0;
            match decoder.feed(bytes, finished, sink) {
                Ok(()) => if finished {
                    Ok(ReadStep::Finished)
                } else {
                    Ok(ReadStep::ReadAgain)
                },
                Err(error) => Err(error),
            }
        },
    }
}

/// The texts of a whole log that is read in `chunks`, by a decoder that holds `held` back.
pub open spec fn log_texts(held: Seq<u8>, chunks: Seq<Seq<u8>>) -> Seq<Seq<char>>
    decreases chunks.len(),
{
    if chunks.len() == 0 {
        texts(held, true)
    } else {
        let all = held + chunks[0];
        texts(all, false) + log_texts(held_back(all, false), chunks.drop_first())
    }
}

/// The texts of a byte sequence that ends the log hold all its characters.
pub proof fn lemma_texts_are_lossy(bytes: Seq<u8>)
    ensures
        texts(bytes, true).flatten() == lossy(bytes),
        texts(bytes, false).flatten() == text(bytes),
{
    lemma_records_are_text(bytes);
    if incomplete_tail(bytes).len() > 0 {
        records(bytes).lemma_flatten_push(seq![REPLACEMENT]);
    } else {
        assert(lossy(bytes) =~= text(bytes));
    }
}

/// However a log is cut into chunks, the texts that are handed on, put together, are the
/// characters of the whole log.
pub proof fn lemma_chunks_do_not_matter(held: Seq<u8>, chunks: Seq<Seq<u8>>)
    ensures
        log_texts(held, chunks).flatten() == lossy(held + chunks.flatten()),
    decreases chunks.len(),
{
    if chunks.len() == 0 {
        assert(held + chunks.flatten() =~= held);
        lemma_texts_are_lossy(held);
    } else {
        let all = held + chunks[0];
        let rest = chunks.drop_first();
        let tail = incomplete_tail(all);
        lemma_chunks_do_not_matter(tail, rest);
        lemma_texts_are_lossy(all);
        lemma_cut_anywhere(all, rest.flatten());
        lemma_flatten_concat(texts(all, false), log_texts(tail, rest));
        assert(held + chunks.flatten() =~= all + rest.flatten());
        assert(lossy(all + rest.flatten()) =~= text(all) + lossy(tail + rest.flatten()));
    }
}

/// A log that is UTF-8 is handed on unchanged, whichever of its characters are split
/// across chunks.
pub proof fn lemma_split_characters_are_kept(chunks: Seq<Seq<u8>>)
    requires
        valid_utf8(chunks.flatten()),
    ensures
        log_texts(seq![], chunks).flatten() == decode_utf8(chunks.flatten()),
{
    let none: Seq<u8> = seq![];
    lemma_chunks_do_not_matter(none, chunks);
    assert(none + chunks.flatten() =~= chunks.flatten());
    lemma_lossy_keeps_utf8(chunks.flatten());
}

} // verus!
