//! Copying a whole log: rounds of reading, until one fails or the log is at its end.
use vstd::prelude::*;

use crate::decoder::{
    all_taken, left_after_refusal, refused_at, round, stopped, texts, with_attempts, Attempt,
    LogSink, Read, ReadStep,
};

verus! {

/// What copying a log comes to when its reads come to `reads`: with a decoder that holds
/// `held` back and a sink, the last round returns `r` and leaves `held_after` and
/// `sink_after`. Reads that no round asks for are not made.
pub open spec fn copies<S: LogSink>(
    reads: Seq<Read<S::Error>>,
    held: Seq<u8>,
    sink: S,
    r: Result<ReadStep, S::Error>,
    held_after: Seq<u8>,
    sink_after: S,
) -> bool
    decreases reads.len(),
{
    if reads.len() == 0 {
        &&& r == Ok::<ReadStep, S::Error>(ReadStep::ReadAgain)
        &&& held_after == held
        &&& sink_after == sink
    } else {
        exists|step: Result<ReadStep, S::Error>, h: Seq<u8>, s: S|
            {
                &&& #[trigger] round::<S>(reads[0], held, sink, step, h, s)
                &&& if step == Ok::<ReadStep, S::Error>(ReadStep::ReadAgain) {
                    copies::<S>(reads.drop_first(), h, s, r, held_after, sink_after)
                } else {
                    &&& r == step
                    &&& held_after == h
                    &&& sink_after == s
                }
            }
    }
}

/// The reads that were not interrupted.
pub open spec fn uninterrupted<E>(reads: Seq<Read<E>>) -> Seq<Read<E>>
    decreases reads.len(),
{
    if reads.len() == 0 {
        seq![]
    } else if reads[0] is Interrupted {
        uninterrupted(reads.drop_first())
    } else {
        seq![reads[0]] + uninterrupted(reads.drop_first())
    }
}

/// Whether the attempts of a record from a position on were answered by a function of what
/// was handed on before and the text.
pub open spec fn answered_by<E>(
    record: Seq<Attempt<E>>,
    from: int,
    answer: spec_fn(Seq<Attempt<E>>, Seq<char>) -> Option<E>,
) -> bool {
    forall|i: int|
        from <= i < record.len() ==> (#[trigger] record[i]).refusal == answer(
            record.take(i),
            record[i].text,
        )
}

/// Interrupted reads change nothing: whatever copying a log may come to with them, it may
/// come to without them, and the other way round.
pub proof fn lemma_interruptions_change_nothing<S: LogSink>(
    reads: Seq<Read<S::Error>>,
    held: Seq<u8>,
    sink: S,
    r: Result<ReadStep, S::Error>,
    held_after: Seq<u8>,
    sink_after: S,
)
    ensures
        copies::<S>(reads, held, sink, r, held_after, sink_after) <==> copies::<S>(
            uninterrupted(reads),
            held,
            sink,
            r,
            held_after,
            sink_after,
        ),
    decreases reads.len(),
{
    if reads.len() > 0 {
        let rest = reads.drop_first();
        let again = Ok::<ReadStep, S::Error>(ReadStep::ReadAgain);
        if reads[0] is Interrupted {
            lemma_interruptions_change_nothing::<S>(rest, held, sink, r, held_after, sink_after);
            assert(round::<S>(reads[0], held, sink, again, held, sink));
        } else {
            let left = uninterrupted(reads);
            assert(left.drop_first() =~= uninterrupted(rest));
            if copies::<S>(reads, held, sink, r, held_after, sink_after) {
                let (step, h, s) = lemma_first_round::<S>(
                    reads,
                    held,
                    sink,
                    r,
                    held_after,
                    sink_after,
                );
                lemma_interruptions_change_nothing::<S>(rest, h, s, r, held_after, sink_after);
                assert(round::<S>(left[0], held, sink, step, h, s));
            }
            if copies::<S>(left, held, sink, r, held_after, sink_after) {
                let (step, h, s) = lemma_first_round::<S>(
                    left,
                    held,
                    sink,
                    r,
                    held_after,
                    sink_after,
                );
                lemma_interruptions_change_nothing::<S>(rest, h, s, r, held_after, sink_after);
                assert(round::<S>(reads[0], held, sink, step, h, s));
            }
        }
    }
}

/// The first round of a copy.
proof fn lemma_first_round<S: LogSink>(
    reads: Seq<Read<S::Error>>,
    held: Seq<u8>,
    sink: S,
    r: Result<ReadStep, S::Error>,
    held_after: Seq<u8>,
    sink_after: S,
) -> (first: (Result<ReadStep, S::Error>, Seq<u8>, S))
    requires
        reads.len() > 0,
        copies::<S>(reads, held, sink, r, held_after, sink_after),
    ensures
        round::<S>(reads[0], held, sink, first.0, first.1, first.2),
        if first.0 == Ok::<ReadStep, S::Error>(ReadStep::ReadAgain) {
            copies::<S>(reads.drop_first(), first.1, first.2, r, held_after, sink_after)
        } else {
            r == first.0 && held_after == first.1 && sink_after == first.2
        },
{
    choose|step: Result<ReadStep, S::Error>, h: Seq<u8>, s: S|
        {
            &&& #[trigger] round::<S>(reads[0], held, sink, step, h, s)
            &&& if step == Ok::<ReadStep, S::Error>(ReadStep::ReadAgain) {
                copies::<S>(reads.drop_first(), h, s, r, held_after, sink_after)
            } else {
                &&& r == step
                &&& held_after == h
                &&& sink_after == s
            }
        }
}

/// A round only adds to the record of a sink.
proof fn lemma_round_grows<S: LogSink>(
    read: Read<S::Error>,
    held: Seq<u8>,
    sink: S,
    r: Result<ReadStep, S::Error>,
    held_after: Seq<u8>,
    sink_after: S,
)
    requires
        round::<S>(read, held, sink, r, held_after, sink_after),
        sink.attempts() is Some,
    ensures
        sink_after.attempts() is Some,
        sink.attempts()->0.is_prefix_of(sink_after.attempts()->0),
{
}

/// Copying a log only adds to the record of a sink.
proof fn lemma_copy_grows<S: LogSink>(
    reads: Seq<Read<S::Error>>,
    held: Seq<u8>,
    sink: S,
    r: Result<ReadStep, S::Error>,
    held_after: Seq<u8>,
    sink_after: S,
)
    requires
        copies::<S>(reads, held, sink, r, held_after, sink_after),
        sink.attempts() is Some,
    ensures
        sink_after.attempts() is Some,
        sink.attempts()->0.is_prefix_of(sink_after.attempts()->0),
    decreases reads.len(),
{
    if reads.len() > 0 {
        let (step, h, s) = lemma_first_round::<S>(reads, held, sink, r, held_after, sink_after);
        lemma_round_grows::<S>(reads[0], held, sink, step, h, s);
        if step == Ok::<ReadStep, S::Error>(ReadStep::ReadAgain) {
            lemma_copy_grows::<S>(reads.drop_first(), h, s, r, held_after, sink_after);
            let first = sink.attempts()->0;
            let last = sink_after.attempts()->0;
            assert(first =~= last.subrange(0, first.len() as int));
        }
    }
}

/// Records that agree up to a position, and on the text there, agree on the refusal there.
proof fn lemma_same_answer<E>(
    one: Seq<Attempt<E>>,
    other: Seq<Attempt<E>>,
    from: int,
    at: int,
    answer: spec_fn(Seq<Attempt<E>>, Seq<char>) -> Option<E>,
)
    requires
        answered_by(one, from, answer),
        answered_by(other, from, answer),
        0 <= from <= at < one.len(),
        at < other.len(),
        one.take(at) == other.take(at),
        one[at].text == other[at].text,
    ensures
        one[at].refusal == other[at].refusal,
{
}

/// Where the answers refuse the text at position `n`, no record goes beyond that text.
proof fn lemma_refusal_at<E>(
    handed: Seq<Seq<char>>,
    n: int,
    error: E,
    before: Seq<Attempt<E>>,
    other: Seq<Attempt<E>>,
    answer: spec_fn(Seq<Attempt<E>>, Seq<char>) -> Option<E>,
)
    requires
        0 <= n < handed.len(),
        answered_by(before + refused_at(handed, n, error), before.len() as int, answer),
        answered_by(other, before.len() as int, answer),
    ensures
        other != before + all_taken(handed),
        forall|m: int, e: E|
            n < m < handed.len() ==> other != before + #[trigger] refused_at(handed, m, e),
{
    let one = before + refused_at(handed, n, error);
    let from = before.len() as int;
    if other == before + all_taken(handed) {
        assert(one.take(from + n) =~= other.take(from + n));
        lemma_same_answer(one, other, from, from + n, answer);
    }
    assert forall|m: int, e: E| n < m < handed.len() implies other != before
        + #[trigger] refused_at(handed, m, e) by {
        if other == before + refused_at(handed, m, e) {
            assert(one.take(from + n) =~= other.take(from + n));
            lemma_same_answer(one, other, from, from + n, answer);
        }
    }
}

/// The position of the text that a failed round was refused.
proof fn lemma_refused_text<S: LogSink>(
    bytes: Seq<u8>,
    finished: bool,
    error: S::Error,
    sink: S,
    sink_after: S,
    left: Seq<u8>,
) -> (n: int)
    requires
        stopped::<S>(bytes, finished, error, sink.attempts(), sink_after.attempts(), left),
    ensures
        0 <= n < texts(bytes, finished).len(),
        sink_after.attempts() == with_attempts(
            sink.attempts(),
            refused_at(texts(bytes, finished), n, error),
        ),
        left == left_after_refusal(bytes, n),
{
    choose|n: int|
        {
            &&& 0 <= n < texts(bytes, finished).len()
            &&& sink_after.attempts() == with_attempts(
                sink.attempts(),
                #[trigger] refused_at(texts(bytes, finished), n, error),
            )
            &&& left == left_after_refusal(bytes, n)
        }
}

/// With the same record before and the same answers, a round comes to the same.
proof fn lemma_round_is_determined<S: LogSink>(
    read: Read<S::Error>,
    held: Seq<u8>,
    one: S,
    r_one: Result<ReadStep, S::Error>,
    held_one: Seq<u8>,
    after_one: S,
    other: S,
    r_other: Result<ReadStep, S::Error>,
    held_other: Seq<u8>,
    after_other: S,
    answer: spec_fn(Seq<Attempt<S::Error>>, Seq<char>) -> Option<S::Error>,
)
    requires
        round::<S>(read, held, one, r_one, held_one, after_one),
        round::<S>(read, held, other, r_other, held_other, after_other),
        one.attempts() is Some,
        one.attempts() == other.attempts(),
        answered_by(after_one.attempts()->0, one.attempts()->0.len() as int, answer),
        answered_by(after_other.attempts()->0, one.attempts()->0.len() as int, answer),
    ensures
        r_one == r_other,
        held_one == held_other,
        after_one.attempts() == after_other.attempts(),
{
    if let Read::Bytes(bytes) = read {
        let finished = bytes.len() == 0;
        let handed = texts(held + bytes, finished);
        let before = one.attempts()->0;
        let record = after_one.attempts()->0;
        let record_other = after_other.attempts()->0;
        match (r_one, r_other) {
            (Ok(_), Ok(_)) => {},
            (Ok(_), Err(error)) => {
                let n = lemma_refused_text::<S>(
                    held + bytes,
                    finished,
                    error,
                    other,
                    after_other,
                    held_other,
                );
                lemma_refusal_at(handed, n, error, before, record, answer);
            },
            (Err(error), Ok(_)) => {
                let n = lemma_refused_text::<S>(
                    held + bytes,
                    finished,
                    error,
                    one,
                    after_one,
                    held_one,
                );
                lemma_refusal_at(handed, n, error, before, record_other, answer);
            },
            (Err(error), Err(error_other)) => {
                let n = lemma_refused_text::<S>(
                    held + bytes,
                    finished,
                    error,
                    one,
                    after_one,
                    held_one,
                );
                let m = lemma_refused_text::<S>(
                    held + bytes,
                    finished,
                    error_other,
                    other,
                    after_other,
                    held_other,
                );
                if n < m {
                    lemma_refusal_at(handed, n, error, before, record_other, answer);
                } else if m < n {
                    lemma_refusal_at(handed, m, error_other, before, record, answer);
                } else {
                    let at = before.len() as int + n;
                    assert(record.take(at) =~= record_other.take(at));
                    lemma_same_answer(record, record_other, before.len() as int, at, answer);
                }
            },
        }
    }
}

/// With the same record before and the same answers, copying a log comes to the same.
pub proof fn lemma_copy_is_determined<S: LogSink>(
    reads: Seq<Read<S::Error>>,
    held: Seq<u8>,
    one: S,
    r_one: Result<ReadStep, S::Error>,
    held_one: Seq<u8>,
    after_one: S,
    other: S,
    r_other: Result<ReadStep, S::Error>,
    held_other: Seq<u8>,
    after_other: S,
    answer: spec_fn(Seq<Attempt<S::Error>>, Seq<char>) -> Option<S::Error>,
)
    requires
        copies::<S>(reads, held, one, r_one, held_one, after_one),
        copies::<S>(reads, held, other, r_other, held_other, after_other),
        one.attempts() is Some,
        one.attempts() == other.attempts(),
        answered_by(after_one.attempts()->0, one.attempts()->0.len() as int, answer),
        answered_by(after_other.attempts()->0, one.attempts()->0.len() as int, answer),
    ensures
        r_one == r_other,
        held_one == held_other,
        after_one.attempts() == after_other.attempts(),
    decreases reads.len(),
{
    if reads.len() > 0 {
        let again = Ok::<ReadStep, S::Error>(ReadStep::ReadAgain);
        let rest = reads.drop_first();
        let start = one.attempts()->0.len() as int;
        let (step, h, s) = lemma_first_round::<S>(reads, held, one, r_one, held_one, after_one);
        let (step_other, h_other, s_other) = lemma_first_round::<S>(
            reads,
            held,
            other,
            r_other,
            held_other,
            after_other,
        );
        lemma_round_grows::<S>(reads[0], held, one, step, h, s);
        lemma_round_grows::<S>(reads[0], held, other, step_other, h_other, s_other);
        if step == again {
            lemma_copy_grows::<S>(rest, h, s, r_one, held_one, after_one);
        }
        if step_other == again {
            lemma_copy_grows::<S>(rest, h_other, s_other, r_other, held_other, after_other);
        }
        lemma_answered_before(s.attempts()->0, after_one.attempts()->0, start, answer);
        lemma_answered_before(s_other.attempts()->0, after_other.attempts()->0, start, answer);
        lemma_round_is_determined::<S>(
            reads[0],
            held,
            one,
            step,
            h,
            s,
            other,
            step_other,
            h_other,
            s_other,
            answer,
        );
        if step == again {
            lemma_copy_is_determined::<S>(
                rest,
                h,
                s,
                r_one,
                held_one,
                after_one,
                s_other,
                r_other,
                held_other,
                after_other,
                answer,
            );
        }
    }
}

/// What a record began with was answered as the record was.
proof fn lemma_answered_before<E>(
    front: Seq<Attempt<E>>,
    record: Seq<Attempt<E>>,
    from: int,
    answer: spec_fn(Seq<Attempt<E>>, Seq<char>) -> Option<E>,
)
    requires
        front.is_prefix_of(record),
        answered_by(record, from, answer),
        0 <= from,
    ensures
        answered_by(front, from, answer),
{
    assert forall|i: int| from <= i < front.len() implies (#[trigger] front[i]).refusal == answer(
        front.take(i),
        front[i].text,
    ) by {
        assert(front[i] == record[i]);
        assert(front.take(i) =~= record.take(i));
    }
}

/// A log is copied to the same end however often its reads are interrupted: with the same
/// answers of the sink, the same texts are handed on in the same order, and the same is
/// returned.
pub proof fn lemma_interruptions_do_not_matter<S: LogSink>(
    reads: Seq<Read<S::Error>>,
    other_reads: Seq<Read<S::Error>>,
    held: Seq<u8>,
    one: S,
    r_one: Result<ReadStep, S::Error>,
    held_one: Seq<u8>,
    after_one: S,
    other: S,
    r_other: Result<ReadStep, S::Error>,
    held_other: Seq<u8>,
    after_other: S,
    answer: spec_fn(Seq<Attempt<S::Error>>, Seq<char>) -> Option<S::Error>,
)
    requires
        uninterrupted(reads) == uninterrupted(other_reads),
        copies::<S>(reads, held, one, r_one, held_one, after_one),
        copies::<S>(other_reads, held, other, r_other, held_other, after_other),
        one.attempts() is Some,
        one.attempts() == other.attempts(),
        answered_by(after_one.attempts()->0, one.attempts()->0.len() as int, answer),
        answered_by(after_other.attempts()->0, one.attempts()->0.len() as int, answer),
    ensures
        r_one == r_other,
        held_one == held_other,
        after_one.attempts() == after_other.attempts(),
{
    lemma_interruptions_change_nothing::<S>(reads, held, one, r_one, held_one, after_one);
    lemma_interruptions_change_nothing::<S>(
        other_reads,
        held,
        other,
        r_other,
        held_other,
        after_other,
    );
    lemma_copy_is_determined::<S>(
        uninterrupted(reads),
        held,
        one,
        r_one,
        held_one,
        after_one,
        other,
        r_other,
        held_other,
        after_other,
        answer,
    );
}

} // verus!
