use crate::apdu::{
    body_of, get_response, get_response_capacity, has_status, split, sw1_of, sw2_of,
    SW1_MORE_DATA, SW1_SUCCESS,
};
use crate::transceiver::{
    begin_spec, continuation_limit, step_spec, ProgressView, TransceiverView,
};
use crate::types::{ReplyView, TransmitErrorView, TransmitResultView};
use vstd::prelude::*;

verus! {

/// Where a transaction stands after the transport has given `replies`, in
/// order, to the commands that were sent. Replies beyond the end of the
/// transaction are not looked at.
pub open spec fn run(progress: ProgressView, replies: Seq<ReplyView>) -> ProgressView
    decreases replies.len(),
{
    match progress {
        ProgressView::Send { state, .. } => if replies.len() == 0 {
            progress
        } else {
            run(step_spec(state, replies[0]), replies.drop_first())
        },
        _ => progress,
    }
}

/// How many commands go out on the way to `run(progress, replies)`.
pub open spec fn commands_sent(progress: ProgressView, replies: Seq<ReplyView>) -> nat
    decreases replies.len(),
{
    match progress {
        ProgressView::Send { state, .. } => if replies.len() == 0 {
            1
        } else {
            1 + commands_sent(step_spec(state, replies[0]), replies.drop_first())
        },
        _ => 0,
    }
}

/// The most commands that can still go out, the pending one included.
pub open spec fn commands_left(progress: ProgressView) -> nat {
    match progress {
        ProgressView::Send { state, .. } => state.budget(),
        _ => 0,
    }
}

/// The reply carries `61 xx` with bytes outstanding.
pub open spec fn announces_more(reply: ReplyView) -> bool {
    match reply {
        ReplyView::Received(bytes) => has_status(bytes) && sw1_of(bytes) == SW1_MORE_DATA
            && sw2_of(bytes) > 0,
        ReplyView::Failed(_) => false,
    }
}

/// The body bytes that a reply carries.
pub open spec fn reply_body(reply: ReplyView) -> Seq<u8> {
    match reply {
        ReplyView::Received(bytes) => body_of(bytes),
        ReplyView::Failed(_) => Seq::empty(),
    }
}

/// The second status byte that a reply carries.
pub open spec fn reply_sw2(reply: ReplyView) -> u8 {
    match reply {
        ReplyView::Received(bytes) => sw2_of(bytes),
        ReplyView::Failed(_) => 0,
    }
}

/// The bodies of `replies`, one after the other.
pub open spec fn bodies(replies: Seq<ReplyView>) -> Seq<u8>
    decreases replies.len(),
{
    if replies.len() == 0 {
        Seq::empty()
    } else {
        reply_body(replies[0]) + bodies(replies.drop_first())
    }
}

/// Every step leaves a well-formed state: a GET RESPONSE goes out only while
/// bytes are outstanding and the limit is not reached.
pub proof fn lemma_step_keeps_well_formed(state: TransceiverView, reply: ReplyView)
    ensures
        step_spec(state, reply).wf(),
{
}

/// Whatever the transport replies, no more commands go out than the state
/// has left.
pub proof fn lemma_commands_within_budget(progress: ProgressView, replies: Seq<ReplyView>)
    requires
        progress.wf(),
    ensures
        commands_sent(progress, replies) <= commands_left(progress),
    decreases replies.len(),
{
    match progress {
        ProgressView::Send { state, .. } => {
            if replies.len() > 0 {
                let next = step_spec(state, replies[0]);
                lemma_commands_within_budget(next, replies.drop_first());
                assert(commands_left(next) + 1 <= state.budget());
            }
        },
        _ => {},
    }
}

/// Whatever the card and the transport do, a transaction sends its command
/// and at most as many GET RESPONSE commands as the continuation limit.
pub proof fn lemma_continuations_bounded(
    command: Seq<u8>,
    expected_data_length: u32,
    max_continuations: Option<u32>,
    replies: Seq<ReplyView>,
)
    ensures
        commands_sent(begin_spec(command, expected_data_length, max_continuations), replies) <= 1
            + continuation_limit(max_continuations),
{
    lemma_commands_within_budget(
        begin_spec(command, expected_data_length, max_continuations),
        replies,
    );
}

/// A first response with a status word that opens no chaining is the whole
/// answer: the body is all but its last two bytes, the status word is its
/// last two bytes, and no further command is sent.
pub proof fn lemma_plain_response_is_split(
    command: Seq<u8>,
    expected_data_length: u32,
    max_continuations: Option<u32>,
    response: Seq<u8>,
    later: Seq<ReplyView>,
)
    requires
        has_status(response),
        !(sw1_of(response) == SW1_MORE_DATA && sw2_of(response) > 0 && continuation_limit(
            max_continuations,
        ) > 0),
    ensures
        run(
            begin_spec(command, expected_data_length, max_continuations),
            seq![ReplyView::Received(response)] + later,
        ) == ProgressView::Done(split(response)),
        split(response).data == response.subrange(0, response.len() - 2),
        split(response).sw1 == response[response.len() - 2],
        split(response).sw2 == response[response.len() - 1],
        commands_sent(
            begin_spec(command, expected_data_length, max_continuations),
            seq![ReplyView::Received(response)] + later,
        ) == 1,
{
    let replies = seq![ReplyView::Received(response)] + later;
    let start = begin_spec(command, expected_data_length, max_continuations);
    assert(replies[0] == ReplyView::Received(response));
    let next = step_spec(start->Send_state, replies[0]);
    assert(next == ProgressView::Done(split(response)));
    assert(run(next, replies.drop_first()) == next);
    assert(commands_sent(next, replies.drop_first()) == 0);
}

/// A first response of fewer than two bytes is no error: the answer is an
/// empty body with the status word `00 00`, and no further command is sent.
pub proof fn lemma_short_response_is_empty(
    command: Seq<u8>,
    expected_data_length: u32,
    max_continuations: Option<u32>,
    response: Seq<u8>,
    later: Seq<ReplyView>,
)
    requires
        response.len() < 2,
    ensures
        run(
            begin_spec(command, expected_data_length, max_continuations),
            seq![ReplyView::Received(response)] + later,
        ) == ProgressView::Done(TransmitResultView { data: Seq::empty(), sw1: 0, sw2: 0 }),
{
    let replies = seq![ReplyView::Received(response)] + later;
    let start = begin_spec(command, expected_data_length, max_continuations);
    assert(replies[0] == ReplyView::Received(response));
    let next = step_spec(start->Send_state, replies[0]);
    assert(next == ProgressView::Done(TransmitResultView { data: Seq::empty(), sw1: 0, sw2: 0 }));
    assert(run(next, replies.drop_first()) == next);
}

/// A transport failure on the command itself fails the transaction with the
/// transport's message.
pub proof fn lemma_first_failure_is_surfaced(
    command: Seq<u8>,
    expected_data_length: u32,
    max_continuations: Option<u32>,
    message: Seq<char>,
    later: Seq<ReplyView>,
)
    ensures
        run(
            begin_spec(command, expected_data_length, max_continuations),
            seq![ReplyView::Failed(message)] + later,
        ) == ProgressView::Failed(TransmitErrorView::Transport(message)),
{
    let replies = seq![ReplyView::Failed(message)] + later;
    let start = begin_spec(command, expected_data_length, max_continuations);
    assert(replies[0] == ReplyView::Failed(message));
    let next = step_spec(start->Send_state, replies[0]);
    assert(run(next, replies.drop_first()) == next);
}

/// The transceiver in the middle of chaining, with its GET RESPONSE on the
/// way.
pub open spec fn chaining(data: Seq<u8>, remaining: u8, count: nat, max: nat) -> ProgressView {
    ProgressView::Send {
        state: TransceiverView::Chaining { data, remaining, count, max_continuations: max },
        command: get_response(remaining as nat),
        capacity: get_response_capacity(remaining as nat),
    }
}

/// What is assembled once the first response and `k` continuation replies
/// are in.
pub open spec fn accumulated(first: Seq<u8>, replies: Seq<ReplyView>, k: nat) -> Seq<u8> {
    body_of(first) + bodies(replies.take(k as int))
}

/// How many bytes the card last announced, once the first response and `k`
/// continuation replies are in.
pub open spec fn outstanding(first: Seq<u8>, replies: Seq<ReplyView>, k: nat) -> u8 {
    if k == 0 {
        sw2_of(first)
    } else {
        reply_sw2(replies[k - 1])
    }
}

proof fn lemma_chain_advances(
    data: Seq<u8>,
    remaining: u8,
    count: nat,
    max: nat,
    replies: Seq<ReplyView>,
    k: nat,
)
    requires
        count + k < max,
        k <= replies.len(),
        forall|i: int| 0 <= i < k ==> announces_more(#[trigger] replies[i]),
    ensures
        run(chaining(data, remaining, count, max), replies) == run(
            chaining(
                data + bodies(replies.take(k as int)),
                if k == 0 {
                    remaining
                } else {
                    reply_sw2(replies[k - 1])
                },
                count + k,
                max,
            ),
            replies.skip(k as int),
        ),
        commands_sent(chaining(data, remaining, count, max), replies) == k + commands_sent(
            chaining(
                data + bodies(replies.take(k as int)),
                if k == 0 {
                    remaining
                } else {
                    reply_sw2(replies[k - 1])
                },
                count + k,
                max,
            ),
            replies.skip(k as int),
        ),
    decreases k,
{
    if k == 0 {
        assert(replies.take(0) =~= Seq::<ReplyView>::empty());
        assert(data + bodies(replies.take(0)) =~= data);
        assert(replies.skip(0) =~= replies);
    } else {
        let first = replies[0];
        let rest = replies.drop_first();
        let grown = data + reply_body(first);
        let taken = replies.take(k as int);
        assert(announces_more(first));
        assert(taken[0] == first);
        assert(taken.drop_first() =~= rest.take(k - 1));
        assert(bodies(taken) == reply_body(first) + bodies(rest.take(k - 1)));
        assert(data + bodies(taken) =~= grown + bodies(rest.take(k - 1)));
        let start = chaining(data, remaining, count, max);
        let next = step_spec(start->Send_state, first);
        assert(next == chaining(grown, reply_sw2(first), count + 1, max));
        assert(run(start, replies) == run(next, rest));
        assert(commands_sent(start, replies) == 1 + commands_sent(next, rest));
        assert forall|i: int| 0 <= i < k - 1 implies announces_more(#[trigger] rest[i]) by {
            assert(rest[i] == replies[i + 1]);
        }
        lemma_chain_advances(grown, reply_sw2(first), count + 1, max, rest, (k - 1) as nat);
        assert(rest.skip(k - 1) =~= replies.skip(k as int));
        if k > 1 {
            assert(rest[k - 2] == replies[k - 1]);
        }
    }
}

/// While every reply carries `61 xx` with bytes outstanding and the limit is
/// not reached, the transceiver goes on chaining: after `k` such replies it
/// holds the bodies of the first response and of those replies, in order and
/// each once, and asks for as many bytes as the last of them announced.
pub proof fn lemma_continuations_accumulate(
    command: Seq<u8>,
    expected_data_length: u32,
    max_continuations: Option<u32>,
    first: Seq<u8>,
    replies: Seq<ReplyView>,
    k: nat,
)
    requires
        announces_more(ReplyView::Received(first)),
        k < continuation_limit(max_continuations),
        k <= replies.len(),
        forall|i: int| 0 <= i < k ==> announces_more(#[trigger] replies[i]),
    ensures
        run(
            begin_spec(command, expected_data_length, max_continuations),
            seq![ReplyView::Received(first)] + replies,
        ) == run(
            chaining(
                accumulated(first, replies, k),
                outstanding(first, replies, k),
                k,
                continuation_limit(max_continuations),
            ),
            replies.skip(k as int),
        ),
        commands_sent(
            begin_spec(command, expected_data_length, max_continuations),
            seq![ReplyView::Received(first)] + replies,
        ) == 1 + k + commands_sent(
            chaining(
                accumulated(first, replies, k),
                outstanding(first, replies, k),
                k,
                continuation_limit(max_continuations),
            ),
            replies.skip(k as int),
        ),
{
    let max = continuation_limit(max_continuations);
    let all = seq![ReplyView::Received(first)] + replies;
    let start = begin_spec(command, expected_data_length, max_continuations);
    assert(all[0] == ReplyView::Received(first));
    assert(all.drop_first() =~= replies);
    let next = step_spec(start->Send_state, all[0]);
    assert(next == chaining(body_of(first), sw2_of(first), 0, max));
    assert(run(start, all) == run(next, replies));
    assert(commands_sent(start, all) == 1 + commands_sent(next, replies));
    lemma_chain_advances(body_of(first), sw2_of(first), 0, max, replies, k);
}

/// A chain that the card closes with `90 00` after `k` continuations yields
/// the bodies of the first response, of every continuation and of the
/// closing reply, in order and each once, with the status word `90 00`.
pub proof fn lemma_chain_ends_with_success(
    command: Seq<u8>,
    expected_data_length: u32,
    max_continuations: Option<u32>,
    first: Seq<u8>,
    replies: Seq<ReplyView>,
    k: nat,
)
    requires
        announces_more(ReplyView::Received(first)),
        k < continuation_limit(max_continuations),
        k < replies.len(),
        forall|i: int| 0 <= i < k ==> announces_more(#[trigger] replies[i]),
        replies[k as int] is Received,
        has_status(replies[k as int]->Received_0),
        sw1_of(replies[k as int]->Received_0) == SW1_SUCCESS,
        sw2_of(replies[k as int]->Received_0) == 0,
    ensures
        run(
            begin_spec(command, expected_data_length, max_continuations),
            seq![ReplyView::Received(first)] + replies,
        ) == ProgressView::Done(
            TransmitResultView {
                data: accumulated(first, replies, k + 1),
                sw1: SW1_SUCCESS,
                sw2: 0,
            },
        ),
        commands_sent(
            begin_spec(command, expected_data_length, max_continuations),
            seq![ReplyView::Received(first)] + replies,
        ) == k + 2,
{
    lemma_continuations_accumulate(
        command,
        expected_data_length,
        max_continuations,
        first,
        replies,
        k,
    );
    lemma_last_reply(
        accumulated(first, replies, k),
        outstanding(first, replies, k),
        k,
        continuation_limit(max_continuations),
        replies,
        k,
    );
    lemma_bodies_extend(replies, k);
    assert(accumulated(first, replies, k + 1) =~= accumulated(first, replies, k) + reply_body(
        replies[k as int],
    ));
}

/// A chain cut short by a transport failure, or by a reply too short to hold
/// a status word, is no error: the answer is what was assembled so far, with
/// the last `61 xx` that the card reported.
pub proof fn lemma_chain_interrupted_keeps_progress(
    command: Seq<u8>,
    expected_data_length: u32,
    max_continuations: Option<u32>,
    first: Seq<u8>,
    replies: Seq<ReplyView>,
    k: nat,
)
    requires
        announces_more(ReplyView::Received(first)),
        k < continuation_limit(max_continuations),
        k < replies.len(),
        forall|i: int| 0 <= i < k ==> announces_more(#[trigger] replies[i]),
        replies[k as int] is Failed || !has_status(replies[k as int]->Received_0),
    ensures
        run(
            begin_spec(command, expected_data_length, max_continuations),
            seq![ReplyView::Received(first)] + replies,
        ) == ProgressView::Done(
            TransmitResultView {
                data: accumulated(first, replies, k),
                sw1: SW1_MORE_DATA,
                sw2: outstanding(first, replies, k),
            },
        ),
{
    lemma_continuations_accumulate(
        command,
        expected_data_length,
        max_continuations,
        first,
        replies,
        k,
    );
    lemma_last_reply(
        accumulated(first, replies, k),
        outstanding(first, replies, k),
        k,
        continuation_limit(max_continuations),
        replies,
        k,
    );
}

/// A chain that the card ends with a status word other than `90 00` and
/// `61 xx` yields what was assembled before, without the body of that reply,
/// and that status word as it is.
pub proof fn lemma_chain_ends_on_other_status(
    command: Seq<u8>,
    expected_data_length: u32,
    max_continuations: Option<u32>,
    first: Seq<u8>,
    replies: Seq<ReplyView>,
    k: nat,
)
    requires
        announces_more(ReplyView::Received(first)),
        k < continuation_limit(max_continuations),
        k < replies.len(),
        forall|i: int| 0 <= i < k ==> announces_more(#[trigger] replies[i]),
        replies[k as int] is Received,
        has_status(replies[k as int]->Received_0),
        sw1_of(replies[k as int]->Received_0) != SW1_MORE_DATA,
        !(sw1_of(replies[k as int]->Received_0) == SW1_SUCCESS && sw2_of(
            replies[k as int]->Received_0,
        ) == 0),
    ensures
        run(
            begin_spec(command, expected_data_length, max_continuations),
            seq![ReplyView::Received(first)] + replies,
        ) == ProgressView::Done(
            TransmitResultView {
                data: accumulated(first, replies, k),
                sw1: sw1_of(replies[k as int]->Received_0),
                sw2: sw2_of(replies[k as int]->Received_0),
            },
        ),
{
    lemma_continuations_accumulate(
        command,
        expected_data_length,
        max_continuations,
        first,
        replies,
        k,
    );
    lemma_last_reply(
        accumulated(first, replies, k),
        outstanding(first, replies, k),
        k,
        continuation_limit(max_continuations),
        replies,
        k,
    );
}

proof fn lemma_last_reply(
    data: Seq<u8>,
    remaining: u8,
    count: nat,
    max: nat,
    replies: Seq<ReplyView>,
    k: nat,
)
    requires
        k < replies.len(),
        !(step_spec(
            TransceiverView::Chaining { data, remaining, count, max_continuations: max },
            replies[k as int],
        ) is Send),
    ensures
        run(chaining(data, remaining, count, max), replies.skip(k as int)) == step_spec(
            TransceiverView::Chaining { data, remaining, count, max_continuations: max },
            replies[k as int],
        ),
        commands_sent(chaining(data, remaining, count, max), replies.skip(k as int)) == 1,
{
    let tail = replies.skip(k as int);
    assert(tail[0] == replies[k as int]);
    let next = step_spec(
        TransceiverView::Chaining { data, remaining, count, max_continuations: max },
        tail[0],
    );
    assert(run(next, tail.drop_first()) == next);
    assert(commands_sent(next, tail.drop_first()) == 0);
}

proof fn lemma_bodies_extend(replies: Seq<ReplyView>, k: nat)
    requires
        k < replies.len(),
    ensures
        bodies(replies.take((k + 1) as int)) == bodies(replies.take(k as int)) + reply_body(
            replies[k as int],
        ),
    decreases k,
{
    let longer = replies.take((k + 1) as int);
    let rest = replies.drop_first();
    assert(longer[0] == replies[0]);
    assert(longer.drop_first() =~= rest.take(k as int));
    if k == 0 {
        assert(rest.take(0) =~= Seq::<ReplyView>::empty());
        assert(replies.take(0) =~= Seq::<ReplyView>::empty());
        assert(bodies(longer) =~= bodies(replies.take(0)) + reply_body(replies[0]));
    } else {
        let shorter = replies.take(k as int);
        assert(shorter[0] == replies[0]);
        assert(shorter.drop_first() =~= rest.take(k - 1));
        lemma_bodies_extend(rest, (k - 1) as nat);
        assert(rest[k - 1] == replies[k as int]);
        assert(bodies(longer) =~= bodies(shorter) + reply_body(replies[k as int]));
    }
}

/// Against a card that answers every command with `61 xx` and bytes
/// outstanding, chaining halts after exactly as many GET RESPONSE commands as
/// the limit allows. The answer holds the bodies of the first response and
/// of every continuation made, in order, and the status word is the last
/// `61 xx` seen.
pub proof fn lemma_chaining_halts_at_limit(
    command: Seq<u8>,
    expected_data_length: u32,
    max_continuations: Option<u32>,
    first: Seq<u8>,
    replies: Seq<ReplyView>,
)
    requires
        continuation_limit(max_continuations) > 0,
        announces_more(ReplyView::Received(first)),
        replies.len() >= continuation_limit(max_continuations),
        forall|i: int|
            0 <= i < continuation_limit(max_continuations) ==> announces_more(
                #[trigger] replies[i],
            ),
    ensures
        run(
            begin_spec(command, expected_data_length, max_continuations),
            seq![ReplyView::Received(first)] + replies,
        ) == ProgressView::Done(
            TransmitResultView {
                data: accumulated(first, replies, continuation_limit(max_continuations)),
                sw1: SW1_MORE_DATA,
                sw2: outstanding(first, replies, continuation_limit(max_continuations)),
            },
        ),
        commands_sent(
            begin_spec(command, expected_data_length, max_continuations),
            seq![ReplyView::Received(first)] + replies,
        ) == 1 + continuation_limit(max_continuations),
{
    let max = continuation_limit(max_continuations);
    let k = (max - 1) as nat;
    lemma_continuations_accumulate(
        command,
        expected_data_length,
        max_continuations,
        first,
        replies,
        k,
    );
    assert(announces_more(replies[k as int]));
    lemma_last_reply(
        accumulated(first, replies, k),
        outstanding(first, replies, k),
        k,
        max,
        replies,
        k,
    );
    lemma_bodies_extend(replies, k);
    assert(accumulated(first, replies, max) =~= accumulated(first, replies, k) + reply_body(
        replies[k as int],
    ));
}

} // verus!
