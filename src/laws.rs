use vstd::prelude::*;
use crate::dispatch::{inspect_choice, inspect_text, next_spec, receive_spec, LoopView, StepView};
use crate::json::is_json_text;
use crate::marker::{law_marker_round_trip, marker_of, marker_text, valid_name, valid_params};
use crate::registry::{handler_in, HandlerId};

verus! {

/// The state and the decisions after `n` steps with no reply arriving.
pub open spec fn run(reg: Seq<(Seq<char>, HandlerId)>, v: LoopView, n: nat) -> (LoopView, Seq<StepView>)
    decreases n,
{
    if n == 0 {
        (v, Seq::empty())
    } else {
        let (v1, s) = next_spec(reg, v);
        let (vf, ss) = run(reg, v1, (n - 1) as nat);
        (vf, seq![s] + ss)
    }
}

/// A choice that holds no marker.
pub open spec fn marker_free(c: Option<Seq<char>>) -> bool {
    match c {
        None => true,
        Some(t) => marker_of(t) is None,
    }
}

/// What the loop surfaces for a choice without a marker.
pub open spec fn plain_outcome(c: Option<Seq<char>>) -> StepView {
    match c {
        None => StepView::Skip,
        Some(t) => StepView::Answer(t),
    }
}

/// A marker written for a registered name with JSON parameter text is
/// dispatched to that name's handler with exactly that name and that text.
pub proof fn law_registered_marker_dispatches(
    reg: Seq<(Seq<char>, HandlerId)>,
    name: Seq<char>,
    params: Seq<char>,
    handler: HandlerId,
)
    requires
        valid_name(name),
        valid_params(params),
        is_json_text(params),
        handler_in(reg, name) == Some(handler),
    ensures
        inspect_text(reg, marker_text(name, params)) == StepView::Dispatch(handler, name, params),
{
    law_marker_round_trip(name, params);
}

/// When no waiting choice holds a marker, the loop answers each one with its
/// text unchanged, in order, calls no handler, and then finishes.
pub proof fn law_plain_text_terminates(reg: Seq<(Seq<char>, HandlerId)>, v: LoopView)
    requires
        forall|i: int| 0 <= i < v.queue.len() ==> marker_free(#[trigger] v.queue[i]),
    ensures
        ({
            let (vf, ss) = run(reg, v, v.queue.len());
            &&& vf.queue.len() == 0
            &&& vf.dispatched == v.dispatched
            &&& ss.len() == v.queue.len()
            &&& forall|i: int| 0 <= i < ss.len() ==> #[trigger] ss[i] == plain_outcome(v.queue[i])
            &&& next_spec(reg, vf).1 == StepView::Finished
        }),
    decreases v.queue.len(),
{
    if v.queue.len() > 0 {
        let (v1, s) = next_spec(reg, v);
        assert(marker_free(v.queue[0]));
        assert(v1.queue =~= v.queue.drop_first());
        assert forall|i: int| 0 <= i < v1.queue.len() implies marker_free(#[trigger] v1.queue[i]) by {
            assert(v1.queue[i] == v.queue[i + 1]);
        }
        law_plain_text_terminates(reg, v1);
        let (vf, ss) = run(reg, v, v.queue.len());
        let (vf1, ss1) = run(reg, v1, v1.queue.len());
        assert(ss == seq![s] + ss1);
        assert forall|i: int| 0 <= i < ss.len() implies #[trigger] ss[i] == plain_outcome(v.queue[i]) by {
            if i > 0 {
                assert(ss[i] == ss1[i - 1]);
                assert(v1.queue[i - 1] == v.queue[i]);
            }
        }
    }
}

/// A marker whose name is not registered, or whose parameter text is not
/// JSON, ends its choice with the same diagnostic in whatever state the loop
/// is, and calls no handler.
pub proof fn law_unusable_marker_is_diagnosed(
    reg: Seq<(Seq<char>, HandlerId)>,
    v: LoopView,
    w: LoopView,
    text: Seq<char>,
    name: Seq<char>,
    params: Seq<char>,
)
    requires
        v.queue.len() > 0,
        w.queue.len() > 0,
        v.queue[0] == Some(text),
        w.queue[0] == Some(text),
        marker_of(text) == Some((name, params)),
        !is_json_text(params) || handler_in(reg, name) is None,
    ensures
        next_spec(reg, v).1 == next_spec(reg, w).1,
        next_spec(reg, v).1 == (if !is_json_text(params) {
            StepView::MalformedParameters(name, params)
        } else {
            StepView::HandlerNotFound(name)
        }),
        next_spec(reg, v).0 == (LoopView { queue: v.queue.drop_first(), ..v }),
        next_spec(reg, w).0 == (LoopView { queue: w.queue.drop_first(), ..w }),
{
}

/// A choice whose marker resolves to a handler is dispatched; the reply to
/// the handler's result is handled next, whole, before any choice that was
/// waiting; a marker-free reply is surfaced as the answer and ends the chain.
pub proof fn law_dispatch_continues_with_reply(
    reg: Seq<(Seq<char>, HandlerId)>,
    v: LoopView,
    reply: Seq<Option<Seq<char>>>,
)
    requires
        v.queue.len() > 0,
        v.dispatched < v.limit,
        inspect_choice(reg, v.queue[0]) is Dispatch,
    ensures
        ({
            let (v1, s) = next_spec(reg, v);
            let v2 = receive_spec(v1, reply);
            &&& s == inspect_choice(reg, v.queue[0])
            &&& v1.dispatched == v.dispatched + 1
            &&& v2.queue == reply + v.queue.drop_first()
            &&& (reply.len() == 1 && marker_free(reply[0])) ==> next_spec(reg, v2) == (
            LoopView { queue: v.queue.drop_first(), ..v1 },
            plain_outcome(reply[0]),
            )
        }),
{
    let (v1, s) = next_spec(reg, v);
    let v2 = receive_spec(v1, reply);
    if reply.len() == 1 && marker_free(reply[0]) {
        assert(v2.queue.drop_first() =~= v.queue.drop_first());
    }
}

/// Choices are handled in order: the first choice's decision depends on it
/// alone, and whatever reply its handler call brings is handled whole before
/// the second choice.
pub proof fn law_choice_order(
    reg: Seq<(Seq<char>, HandlerId)>,
    v: LoopView,
    reply: Seq<Option<Seq<char>>>,
)
    requires
        v.queue.len() >= 2,
    ensures
        ({
            let (v1, s) = next_spec(reg, v);
            let v2 = receive_spec(v1, reply);
            &&& s == next_spec(reg, LoopView { queue: seq![v.queue[0]], ..v }).1
            &&& v1.queue[0] == v.queue[1]
            &&& v2.queue.subrange(0, reply.len() as int) == reply
            &&& v2.queue[reply.len() as int] == v.queue[1]
        }),
{
    let (v1, s) = next_spec(reg, v);
    let v2 = receive_spec(v1, reply);
    assert(v2.queue.subrange(0, reply.len() as int) =~= reply);
}

/// The loop run for `n` steps by a driver that answers each handler call with
/// the next of `replies`: the state after, the decisions taken, and the
/// replies not yet used.
pub open spec fn drive(
    reg: Seq<(Seq<char>, HandlerId)>,
    v: LoopView,
    replies: Seq<Seq<Option<Seq<char>>>>,
    n: nat,
) -> (LoopView, Seq<StepView>, Seq<Seq<Option<Seq<char>>>>)
    decreases n,
{
    if n == 0 {
        (v, Seq::empty(), replies)
    } else {
        let (v1, s) = next_spec(reg, v);
        if s is Dispatch && replies.len() > 0 {
            let (vf, ss, rest) = drive(
                reg,
                receive_spec(v1, replies[0]),
                replies.drop_first(),
                (n - 1) as nat,
            );
            (vf, seq![s] + ss, rest)
        } else {
            let (vf, ss, rest) = drive(reg, v1, replies, (n - 1) as nat);
            (vf, seq![s] + ss, rest)
        }
    }
}

/// Over the first `n` steps of `drive`, each step finds a choice waiting and
/// each handler call finds a reply.
pub open spec fn served(
    reg: Seq<(Seq<char>, HandlerId)>,
    v: LoopView,
    replies: Seq<Seq<Option<Seq<char>>>>,
    n: nat,
) -> bool
    decreases n,
{
    if n == 0 {
        true
    } else {
        let (v1, s) = next_spec(reg, v);
        &&& v.queue.len() > 0
        &&& s is Dispatch ==> replies.len() > 0
        &&& if s is Dispatch {
            served(reg, receive_spec(v1, replies[0]), replies.drop_first(), (n - 1) as nat)
        } else {
            served(reg, v1, replies, (n - 1) as nat)
        }
    }
}

/// The replies of a continuation chain: the reply to the `i`-th handler call
/// is the one choice holding `texts[i + 1]`.
pub open spec fn chain_replies(texts: Seq<Seq<char>>) -> Seq<Seq<Option<Seq<char>>>> {
    Seq::new((texts.len() - 1) as nat, |i: int| seq![Some(texts[i + 1])])
}

/// A chain of continuations of any length: while each reply holds a marker
/// that resolves to a handler, the loop dispatches it and handles the reply to
/// that call next; the first marker-free reply is the answer and ends the
/// chain. One handler call, so one follow-up request, is made per link, and
/// the choices that were waiting are untouched.
pub proof fn law_continuation_chain(
    reg: Seq<(Seq<char>, HandlerId)>,
    v: LoopView,
    texts: Seq<Seq<char>>,
    waiting: Seq<Option<Seq<char>>>,
    more: Seq<Seq<Option<Seq<char>>>>,
)
    requires
        texts.len() >= 1,
        forall|i: int| 0 <= i < texts.len() - 1 ==> inspect_text(reg, #[trigger] texts[i]) is Dispatch,
        marker_of(texts[texts.len() - 1]) is None,
        v.queue == seq![Some(texts[0])] + waiting,
        v.dispatched + texts.len() - 1 <= v.limit,
    ensures
        drive(reg, v, chain_replies(texts) + more, texts.len()) == (
        LoopView { queue: waiting, dispatched: (v.dispatched + texts.len() - 1) as nat, ..v },
        texts.map_values(|t: Seq<char>| inspect_text(reg, t)),
        more,
        ),
    decreases texts.len(),
{
    let replies = chain_replies(texts) + more;
    let (v1, s) = next_spec(reg, v);
    assert(v.queue[0] == Some(texts[0]));
    assert(v.queue.drop_first() =~= waiting);
    if texts.len() == 1 {
        assert(replies =~= more);
        let (vf, ss, rest) = drive(reg, v1, replies, 0);
        assert(texts.map_values(|t: Seq<char>| inspect_text(reg, t)) =~= seq![s] + ss);
    } else {
        let tail = texts.drop_first();
        assert(inspect_text(reg, texts[0]) is Dispatch);
        assert(replies[0] == seq![Some(texts[1])]);
        let v2 = receive_spec(v1, replies[0]);
        assert(v2.queue =~= seq![Some(tail[0])] + waiting);
        assert(chain_replies(tail) + more =~= replies.drop_first());
        assert forall|i: int| 0 <= i < tail.len() - 1 implies inspect_text(reg, #[trigger] tail[i]) is Dispatch by {
            assert(tail[i] == texts[i + 1]);
        }
        law_continuation_chain(reg, v2, tail, waiting, more);
        let (vf, ss, rest) = drive(reg, v2, replies.drop_first(), (texts.len() - 1) as nat);
        assert(texts.map_values(|t: Seq<char>| inspect_text(reg, t)) =~= seq![s] + ss);
    }
}

proof fn lemma_drive_split(
    reg: Seq<(Seq<char>, HandlerId)>,
    v: LoopView,
    replies: Seq<Seq<Option<Seq<char>>>>,
    n0: nat,
    n1: nat,
)
    ensures
        ({
            let (va, sa, ra) = drive(reg, v, replies, n0);
            let (vb, sb, rb) = drive(reg, va, ra, n1);
            drive(reg, v, replies, n0 + n1) == (vb, sa + sb, rb)
        }),
    decreases n0,
{
    if n0 > 0 {
        let (v1, s) = next_spec(reg, v);
        if s is Dispatch && replies.len() > 0 {
            lemma_drive_split(reg, receive_spec(v1, replies[0]), replies.drop_first(), (n0 - 1) as nat, n1);
        } else {
            lemma_drive_split(reg, v1, replies, (n0 - 1) as nat, n1);
        }
        let (va, sa, ra) = drive(reg, v, replies, n0);
        let (vb, sb, rb) = drive(reg, va, ra, n1);
        let (va1, sa1, ra1) = if s is Dispatch && replies.len() > 0 {
            drive(reg, receive_spec(v1, replies[0]), replies.drop_first(), (n0 - 1) as nat)
        } else {
            drive(reg, v1, replies, (n0 - 1) as nat)
        };
        assert(sa == seq![s] + sa1);
        assert(seq![s] + (sa1 + sb) =~= sa + sb);
    } else {
        let (vb, sb, rb) = drive(reg, v, replies, n1);
        assert(Seq::<StepView>::empty() + sb =~= sb);
    }
}

proof fn lemma_drive_frame(
    reg: Seq<(Seq<char>, HandlerId)>,
    v: LoopView,
    replies: Seq<Seq<Option<Seq<char>>>>,
    n: nat,
    later: Seq<Option<Seq<char>>>,
    later_replies: Seq<Seq<Option<Seq<char>>>>,
)
    requires
        served(reg, v, replies, n),
    ensures
        ({
            let (vf, ss, rest) = drive(reg, v, replies, n);
            drive(reg, LoopView { queue: v.queue + later, ..v }, replies + later_replies, n) == (
            LoopView { queue: vf.queue + later, ..vf },
            ss,
            rest + later_replies,
            )
        }),
    decreases n,
{
    if n > 0 {
        let w = LoopView { queue: v.queue + later, ..v };
        let (v1, s) = next_spec(reg, v);
        let (w1, t) = next_spec(reg, w);
        assert(w.queue[0] == v.queue[0]);
        assert(w.queue.drop_first() =~= v.queue.drop_first() + later);
        assert(w1 == LoopView { queue: v1.queue + later, ..v1 });
        assert(t == s);
        if s is Dispatch {
            let all = replies + later_replies;
            assert(all[0] == replies[0]);
            assert(all.drop_first() =~= replies.drop_first() + later_replies);
            let v2 = receive_spec(v1, replies[0]);
            assert(receive_spec(w1, all[0]).queue =~= v2.queue + later);
            assert(receive_spec(w1, all[0]) == LoopView { queue: v2.queue + later, ..v2 });
            lemma_drive_frame(reg, v2, replies.drop_first(), (n - 1) as nat, later, later_replies);
        } else {
            lemma_drive_frame(reg, v1, replies, (n - 1) as nat, later, later_replies);
        }
    } else {
        assert(v.queue + later == v.queue + later);
    }
}

/// Choice order, whole runs: with two choices waiting, the loop does for the
/// first choice, its whole continuation chain included, exactly what it does
/// for that choice alone, and only then what it does for the second choice
/// alone, which starts from the handler calls the first one used.
pub proof fn law_choices_run_in_order(
    reg: Seq<(Seq<char>, HandlerId)>,
    v: LoopView,
    first: Option<Seq<char>>,
    second: Option<Seq<char>>,
    replies_first: Seq<Seq<Option<Seq<char>>>>,
    replies_second: Seq<Seq<Option<Seq<char>>>>,
    n_first: nat,
    n_second: nat,
)
    requires
        v.queue == seq![first, second],
        served(reg, LoopView { queue: seq![first], ..v }, replies_first, n_first),
        drive(reg, LoopView { queue: seq![first], ..v }, replies_first, n_first).0.queue.len() == 0,
        drive(reg, LoopView { queue: seq![first], ..v }, replies_first, n_first).2.len() == 0,
    ensures
        ({
            let (va, sa, ra) = drive(reg, LoopView { queue: seq![first], ..v }, replies_first, n_first);
            let (vb, sb, rb) = drive(reg, LoopView { queue: seq![second], ..va }, replies_second, n_second);
            drive(reg, v, replies_first + replies_second, n_first + n_second) == (vb, sa + sb, rb)
        }),
{
    let v0 = LoopView { queue: seq![first], ..v };
    let (va, sa, ra) = drive(reg, v0, replies_first, n_first);
    lemma_drive_frame(reg, v0, replies_first, n_first, seq![second], replies_second);
    assert(v0.queue + seq![second] =~= v.queue);
    assert(LoopView { queue: v0.queue + seq![second], ..v0 } == v);
    assert(va.queue + seq![second] =~= seq![second]);
    assert(ra + replies_second =~= replies_second);
    lemma_drive_split(reg, v, replies_first + replies_second, n_first, n_second);
}

} // verus!
