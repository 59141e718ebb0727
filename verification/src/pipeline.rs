//! The worker pipeline: a coordinator hands a worker a bounded sequence of
//! integers followed by a sentinel; the worker answers every message,
//! sentinel included, with its successor, and stops right after answering
//! the sentinel. The channel and thread plumbing lives with the caller;
//! this module holds the protocol itself, verified.

use vstd::prelude::*;

verus! {

/// The value that tells the worker to stop reading its inbound channel.
pub const SENTINEL: i64 = 0;

/// A sequence of machine integers, read as mathematical integers.
pub open spec fn as_ints(s: Seq<i64>) -> Seq<int> {
    s.map_values(|v: i64| v as int)
}

/// The replies a worker emits when the messages of `sent` are delivered to
/// it in order: each message is answered with its successor, and the first
/// sentinel is answered and then ends the run, so later messages go
/// unanswered.
pub open spec fn worker_replies(sent: Seq<int>) -> Seq<int>
    decreases sent.len(),
{
    if sent.len() == 0 {
        Seq::empty()
    } else if sent[0] == 0 {
        seq![sent[0] + 1]
    } else {
        seq![sent[0] + 1] + worker_replies(sent.drop_first())
    }
}

/// How many messages the worker takes off its inbound channel before it
/// exits: everything up to and including the first sentinel, or the whole
/// sequence when no sentinel is among them.
pub open spec fn worker_consumed(sent: Seq<int>) -> nat
    decreases sent.len(),
{
    if sent.len() == 0 {
        0
    } else if sent[0] == 0 {
        1
    } else {
        1 + worker_consumed(sent.drop_first())
    }
}

/// One turn of the worker: the reply to the message `v`, and whether the
/// worker stops once the reply is sent.
pub fn worker_step(v: i64) -> (r: (i64, bool))
    requires
        v < i64::MAX,
    ensures
        r.0 == v + 1,
        r.1 == (v == SENTINEL),
{
    (v + 1, v == SENTINEL)
}

/// The worker loop, run on the sequence of messages its inbound channel
/// delivers: answers each message with its successor and stops after
/// answering the first sentinel.
pub fn plus_one(received: &Vec<i64>) -> (replies: Vec<i64>)
    requires
        forall|j: int| 0 <= j < received@.len() ==> received@[j] < i64::MAX,
    ensures
        as_ints(replies@) == worker_replies(as_ints(received@)),
{
    let ghost sent: Seq<int> = as_ints(received@);
    let mut replies: Vec<i64> = Vec::new();
    let mut k: usize = 0;
    let mut done: bool = false;
    proof {
        assert(as_ints(replies@) =~= Seq::<int>::empty());
        assert(sent.skip(0) =~= sent);
        assert(Seq::<int>::empty() + worker_replies(sent) =~= worker_replies(sent));
    }
    while k < received.len() && !done
        invariant
            0 <= k <= received@.len(),
            forall|j: int| 0 <= j < received@.len() ==> received@[j] < i64::MAX,
            sent == as_ints(received@),
            done ==> worker_replies(sent) == as_ints(replies@),
            !done ==> worker_replies(sent) == as_ints(replies@) + worker_replies(
                sent.skip(k as int),
            ),
        decreases received@.len() - k,
    {
        let v = received[k];
        let (reply, stop) = worker_step(v);
        proof {
            let tail = sent.skip(k as int);
            assert(tail[0] == v as int);
            assert(tail.drop_first() =~= sent.skip(k as int + 1));
            assert(as_ints(replies@.push(reply)) =~= as_ints(replies@).push(v + 1));
            assert(as_ints(replies@) + seq![v + 1int] =~= as_ints(replies@).push(v + 1));
            if !stop {
                assert(worker_replies(tail) == seq![v + 1int] + worker_replies(tail.drop_first()));
                assert(as_ints(replies@) + worker_replies(tail) =~= (as_ints(replies@) + seq![
                    v + 1int,
                ]) + worker_replies(tail.drop_first()));
            } else {
                assert(worker_replies(tail) =~= seq![v + 1int]);
            }
        }
        replies.push(reply);
        done = stop;
        k = k + 1;
    }
    proof {
        if !done {
            assert(sent.skip(k as int) =~= Seq::<int>::empty());
            assert(as_ints(replies@) + Seq::<int>::empty() =~= as_ints(replies@));
        }
    }
    replies
}

/// Sentinel termination: a worker whose first message is the sentinel
/// answers it with 1 and takes nothing more off its channel.
pub proof fn lemma_sentinel_termination(sent: Seq<int>)
    requires
        sent.len() >= 1,
        sent[0] == 0,
    ensures
        worker_replies(sent) == seq![1int],
        worker_consumed(sent) == 1,
{
    assert(worker_replies(sent) =~= seq![1int]);
}

/// Increment correctness, message by message: a non-sentinel message at the
/// head of the channel is answered with its successor, and the worker goes
/// on to the rest.
pub proof fn lemma_increment_reply(v: int, rest: Seq<int>)
    requires
        v != 0,
    ensures
        worker_replies(seq![v] + rest) == seq![v + 1] + worker_replies(rest),
        worker_consumed(seq![v] + rest) == 1 + worker_consumed(rest),
{
    let sent = seq![v] + rest;
    assert(sent[0] == v);
    assert(sent.drop_first() =~= rest);
}

/// One full exchange: when no value of `values` is the sentinel, delivering
/// `values` and then the sentinel makes the worker consume everything and
/// reply with each value's successor in order, closed by the reply 1 to the
/// sentinel.
pub proof fn lemma_pipeline_replies(values: Seq<int>)
    requires
        forall|j: int| 0 <= j < values.len() ==> values[j] != 0,
    ensures
        worker_replies(values.push(0)).len() == values.len() + 1,
        forall|j: int| 0 <= j < values.len() ==> worker_replies(values.push(0))[j] == values[j] + 1,
        worker_replies(values.push(0))[values.len() as int] == 1,
        worker_consumed(values.push(0)) == values.len() + 1,
    decreases values.len(),
{
    let sent = values.push(0);
    if values.len() == 0 {
        assert(sent =~= seq![0int]);
        lemma_sentinel_termination(sent);
    } else {
        let rest = values.drop_first();
        lemma_pipeline_replies(rest);
        assert(sent[0] == values[0]);
        assert(sent.drop_first() =~= rest.push(0));
        assert(forall|j: int|
            0 <= j < rest.len() ==> worker_replies(sent)[j + 1] == rest[j] + 1);
        assert(forall|j: int| 1 <= j < values.len() ==> values[j] == rest[j - 1]);
    }
}

/// No deadlock under the correct protocol: with the sentinel appended to a
/// sentinel-free sequence of values, the worker sends strictly more replies
/// than there are values, so a receive loop bounded by the number of values
/// always finds a message waiting.
pub proof fn lemma_no_deadlock(values: Seq<int>)
    requires
        forall|j: int| 0 <= j < values.len() ==> values[j] != 0,
    ensures
        worker_replies(values.push(0)).len() > values.len(),
{
    lemma_pipeline_replies(values);
}

/// One full exchange, executed against the worker loop: every value goes
/// out, then the sentinel, and one reply per value comes back, each the
/// successor of the value it answers, in the order the values were sent.
pub fn coordinator_run(values: &Vec<i64>) -> (replies: Vec<i64>)
    requires
        forall|j: int| 0 <= j < values@.len() ==> values@[j] != SENTINEL && values@[j] < i64::MAX,
    ensures
        replies@.len() == values@.len(),
        forall|j: int| 0 <= j < values@.len() ==> replies@[j] == values@[j] + 1,
{
    let mut sent: Vec<i64> = Vec::new();
    let mut k: usize = 0;
    while k < values.len()
        invariant
            0 <= k <= values@.len(),
            sent@ == values@.take(k as int),
            forall|j: int| 0 <= j < values@.len() ==> values@[j] != SENTINEL && values@[j]
                < i64::MAX,
        decreases values@.len() - k,
    {
        let v = values[k];
        proof {
            assert(sent@.push(v) =~= values@.take(k as int + 1));
        }
        sent.push(v);
        k = k + 1;
    }
    proof {
        assert(values@.take(values@.len() as int) =~= values@);
    }
    sent.push(SENTINEL);
    let mut replies = plus_one(&sent);
    let ghost all: Seq<int> = as_ints(replies@);
    proof {
        assert(as_ints(sent@) =~= as_ints(values@).push(0));
        lemma_pipeline_replies(as_ints(values@));
        assert(all.len() == values@.len() + 1);
        assert(forall|j: int|
            0 <= j < values@.len() ==> all[j] == as_ints(values@)[j] + 1);
    }
    // The coordinator performs exactly one receive per value; the final
    // reply, the worker's answer to the sentinel, is left unread.
    replies.pop();
    proof {
        assert forall|j: int| 0 <= j < values@.len() implies replies@[j] == values@[j] + 1 by {
            assert(replies@[j] as int == all[j]);
            assert(as_ints(values@)[j] == values@[j] as int);
        }
    }
    replies
}

/// The message a single-shot echo task sends for a given input: exactly
/// that input, once.
pub fn echo(value: i64) -> (r: i64)
    ensures
        r == value,
{
    value
}

/// The fixed line each greeting task prints.
pub fn greeting() -> (r: String)
    ensures
        r@ == "Hello"@,
{
    "Hello".to_owned()
}

/// The lines a group of `n` greeting tasks prints, one per task: the
/// content of every line is fixed, only the order across tasks is not.
pub fn greetings(n: usize) -> (lines: Vec<String>)
    ensures
        lines@.len() == n,
        forall|j: int| 0 <= j < n ==> lines@[j]@ == "Hello"@,
{
    let mut lines: Vec<String> = Vec::new();
    let mut k: usize = 0;
    while k < n
        invariant
            0 <= k <= n,
            lines@.len() == k,
            forall|j: int| 0 <= j < k ==> lines@[j]@ == "Hello"@,
        decreases n - k,
    {
        lines.push(greeting());
        k = k + 1;
    }
    lines
}

/// Successor of a borrowed integer.
pub fn inc(x: &i64) -> (r: i64)
    requires
        *x < i64::MAX,
    ensures
        r == *x + 1,
{
    *x + 1
}

} // verus!
