use vstd::prelude::*;
use crate::json::{is_json_text, parse_json};
use crate::marker::{find_marker, marker_of};
use crate::message::{choice_text, ChatResponse};
use crate::registry::{handler_in, HandlerId, Registry};

verus! {

/// The number of handler calls one turn may make when the caller names no other.
pub const DEFAULT_DISPATCH_LIMIT: usize = 16;

/// A handler call that the loop asks its driver to make.
pub struct Call {
    pub handler: HandlerId,
    pub name: String,
    /// The parameter text as it stood in the marker, braces included.
    pub params_text: String,
    /// The parameters, parsed.
    pub params: serde_json::Value,
}

/// What the loop decided for the next choice.
pub enum Step {
    /// Every choice of the turn has been handled.
    Finished,
    /// The choice carried no text.
    Skip,
    /// The choice holds no marker: its text is a final answer.
    Answer(String),
    /// The marker's parameter text is not JSON; the choice ends here.
    MalformedParameters { name: String, params: String },
    /// No handler is registered under the marker's name; the choice ends here.
    HandlerNotFound { name: String },
    /// The turn has used up its handler calls; the choice ends here.
    LimitReached { name: String },
    /// Run the handler, send its result with `follow_up_request`, and hand the
    /// reply to `receive`.
    Dispatch(Call),
}

/// A step, over plain values.
pub enum StepView {
    Finished,
    Skip,
    Answer(Seq<char>),
    MalformedParameters(Seq<char>, Seq<char>),
    HandlerNotFound(Seq<char>),
    LimitReached(Seq<char>),
    Dispatch(HandlerId, Seq<char>, Seq<char>),
}

impl View for Step {
    type V = StepView;

    open spec fn view(&self) -> StepView {
        match self {
            Step::Finished => StepView::Finished,
            Step::Skip => StepView::Skip,
            Step::Answer(t) => StepView::Answer(t@),
            Step::MalformedParameters { name, params } => StepView::MalformedParameters(
                name@,
                params@,
            ),
            Step::HandlerNotFound { name } => StepView::HandlerNotFound(name@),
            Step::LimitReached { name } => StepView::LimitReached(name@),
            Step::Dispatch(c) => StepView::Dispatch(c.handler, c.name@, c.params_text@),
        }
    }
}

/// The decision for one piece of model text, given the registrations.
pub open spec fn inspect_text(reg: Seq<(Seq<char>, HandlerId)>, t: Seq<char>) -> StepView {
    match marker_of(t) {
        None => StepView::Answer(t),
        Some((name, params)) => if !is_json_text(params) {
            StepView::MalformedParameters(name, params)
        } else {
            match handler_in(reg, name) {
                None => StepView::HandlerNotFound(name),
                Some(h) => StepView::Dispatch(h, name, params),
            }
        },
    }
}

/// The decision for one choice, given its text.
pub open spec fn inspect_choice(reg: Seq<(Seq<char>, HandlerId)>, c: Option<Seq<char>>) -> StepView {
    match c {
        None => StepView::Skip,
        Some(t) => inspect_text(reg, t),
    }
}

/// The state of the loop: the choices still to handle, in order, and the
/// handler calls made so far against the limit.
pub struct LoopView {
    pub queue: Seq<Option<Seq<char>>>,
    pub dispatched: nat,
    pub limit: nat,
}

/// One step of the loop: the state after it and the decision taken.
pub open spec fn next_spec(reg: Seq<(Seq<char>, HandlerId)>, v: LoopView) -> (LoopView, StepView) {
    if v.queue.len() == 0 {
        (v, StepView::Finished)
    } else {
        let rest = LoopView { queue: v.queue.drop_first(), ..v };
        let s = inspect_choice(reg, v.queue[0]);
        match s {
            StepView::Dispatch(_, name, _) => if v.dispatched < v.limit {
                (LoopView { dispatched: v.dispatched + 1, ..rest }, s)
            } else {
                (rest, StepView::LimitReached(name))
            },
            _ => (rest, s),
        }
    }
}

/// The texts of a reply's choices, in order.
pub open spec fn response_texts(r: ChatResponse) -> Seq<Option<Seq<char>>> {
    r.choices@.map_values(|c| choice_text(c))
}

/// The state after a reply arrives: its choices come before every choice
/// still waiting, so a reply is handled whole before the loop moves on.
pub open spec fn receive_spec(v: LoopView, texts: Seq<Option<Seq<char>>>) -> LoopView {
    LoopView { queue: texts + v.queue, ..v }
}

pub open spec fn opt_text(o: Option<String>) -> Option<Seq<char>> {
    match o {
        Some(s) => Some(s@),
        None => None,
    }
}

/// The dispatch loop of one turn.
pub struct DispatchLoop {
    /// The texts still to handle, the next one last.
    pending: Vec<Option<String>>,
    dispatched: usize,
    limit: usize,
}

impl View for DispatchLoop {
    type V = LoopView;

    closed spec fn view(&self) -> LoopView {
        LoopView {
            queue: Seq::new(
                self.pending@.len(),
                |i: int| opt_text(self.pending@[self.pending@.len() - 1 - i]),
            ),
            dispatched: self.dispatched as nat,
            limit: self.limit as nat,
        }
    }
}

impl DispatchLoop {
    pub closed spec fn wf(&self) -> bool {
        self.dispatched <= self.limit
    }

    /// A loop with nothing to handle yet, allowed `limit` handler calls.
    pub fn new(limit: usize) -> (r: DispatchLoop)
        ensures
            r.wf(),
            r@ == (LoopView { queue: Seq::empty(), dispatched: 0, limit: limit as nat }),
    {
        let r = DispatchLoop { pending: Vec::new(), dispatched: 0, limit };
        assert(r@.queue =~= Seq::<Option<Seq<char>>>::empty());
        r
    }

    /// Takes in a reply of the endpoint: its choices are handled next, in order.
    pub fn receive(&mut self, response: ChatResponse)
        requires
            old(self).wf(),
        ensures
            final(self).wf(),
            final(self)@ == receive_spec(old(self)@, response_texts(response)),
    {
        let ghost texts = response_texts(response);
        let ghost queue0 = self@.queue;
        let mut choices = response.choices;
        while choices.len() > 0
            invariant
                self.wf(),
                self@.dispatched == old(self)@.dispatched,
                self@.limit == old(self)@.limit,
                choices@.len() <= texts.len(),
                forall|i: int| 0 <= i < choices@.len() ==> choice_text(#[trigger] choices@[i]) == texts[i],
                self@.queue == texts.skip(choices@.len() as int) + queue0,
            decreases choices@.len(),
        {
            let ghost before = self@.queue;
            let ghost n = choices@.len();
            match choices.pop() {
                Some(c) => {
                    self.pending.push(c.content());
                    assert(self@.queue =~= seq![texts[n - 1]] + before);
                    assert(texts.skip(n - 1) =~= seq![texts[n - 1]] + texts.skip(n as int));
                },
                None => {},
            }
        }
        assert(texts.skip(0) =~= texts);
    }

    /// Decides the next choice: a final answer, a diagnostic that ends the
    /// choice, a handler call, or the end of the turn.
    pub fn next_step(&mut self, reg: &Registry) -> (s: Step)
        requires
            old(self).wf(),
        ensures
            final(self).wf(),
            (final(self)@, s@) == next_spec(reg.entries_view(), old(self)@),
    {
        let ghost v = self@;
        let popped = self.pending.pop();
        proof {
            if v.queue.len() > 0 {
                assert(self@.queue =~= v.queue.drop_first());
            }
        }
        match popped {
            None => Step::Finished,
            Some(None) => Step::Skip,
            Some(Some(t)) => match find_marker(t.as_str()) {
                None => Step::Answer(t),
                Some(mk) => match parse_json(mk.params.as_str()) {
                    Err(_) => Step::MalformedParameters { name: mk.name, params: mk.params },
                    Ok(params) => match reg.lookup(&mk.name) {
                        None => Step::HandlerNotFound { name: mk.name },
                        Some(handler) => {
                            if self.dispatched < self.limit {
                                self.dispatched = self.dispatched + 1;
                                Step::Dispatch(
                                    Call { handler, name: mk.name, params_text: mk.params, params },
                                )
                            } else {
                                Step::LimitReached { name: mk.name }
                            }
                        },
                    },
                },
            },
        }
    }

    /// How many handler calls this turn has made.
    pub fn dispatched(&self) -> (r: usize)
        ensures
            r == self@.dispatched,
    {
        self.dispatched
    }

    /// Whether choices are still waiting.
    pub fn has_pending(&self) -> (r: bool)
        ensures
            r == (self@.queue.len() > 0),
    {
        self.pending.len() > 0
    }
}

} // verus!
