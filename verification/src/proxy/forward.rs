//! Splitting terminal input at Ctrl+V.
//!
//! Every byte typed locally goes to the remote ssh session unchanged, except
//! Ctrl+V (byte `0x16`): each one is replaced by a paste of the local
//! clipboard. [`forward_input_with`] decides the order of writes and pastes
//! for one chunk of input; the caller performs them.
use vstd::prelude::*;
use vstd::slice::{slice_subrange, slice_to_vec};

verus! {

/// The byte that Ctrl+V produces in a terminal.
pub const CTRL_V: u8 = 0x16;

/// One step of forwarding a chunk of input.
#[derive(PartialEq, Eq, Debug, Clone)]
pub enum ForwardStep {
    /// Write these bytes to the ssh session.
    Write(Vec<u8>),
    /// Handle a paste (the caller runs its paste handler on the session).
    Paste,
    /// Flush the ssh session's input.
    Flush,
}

/// A [`ForwardStep`] with its bytes as a sequence.
pub enum StepView {
    Write(Seq<u8>),
    Paste,
    Flush,
}

impl View for ForwardStep {
    type V = StepView;

    open spec fn view(&self) -> StepView {
        match self {
            ForwardStep::Write(bytes) => StepView::Write(bytes@),
            ForwardStep::Paste => StepView::Paste,
            ForwardStep::Flush => StepView::Flush,
        }
    }
}

pub open spec fn step_views(steps: Seq<ForwardStep>) -> Seq<StepView> {
    steps.map_values(|s: ForwardStep| s@)
}

/// The input bytes that a step stands for: its bytes for a write, one
/// Ctrl+V for a paste, nothing for a flush.
pub open spec fn expand(step: StepView) -> Seq<u8> {
    match step {
        StepView::Write(bytes) => bytes,
        StepView::Paste => seq![CTRL_V],
        StepView::Flush => seq![],
    }
}

/// The input bytes that a sequence of steps stands for.
pub open spec fn flatten(steps: Seq<StepView>) -> Seq<u8>
    decreases steps.len(),
{
    if steps.len() == 0 {
        seq![]
    } else {
        flatten(steps.drop_last()) + expand(steps.last())
    }
}

/// A write of at least one byte and no Ctrl+V, or a paste.
pub open spec fn is_split_step(step: StepView) -> bool {
    match step {
        StepView::Write(bytes) => bytes.len() > 0 && !bytes.contains(CTRL_V),
        StepView::Paste => true,
        StepView::Flush => false,
    }
}

/// Writes and pastes where each write is as long as possible: no write is
/// empty or holds a Ctrl+V, and no two writes are adjacent.
pub open spec fn is_split(steps: Seq<StepView>) -> bool {
    &&& forall|i: int| 0 <= i < steps.len() ==> is_split_step(#[trigger] steps[i])
    &&& forall|i: int, j: int|
        0 <= i && j == i + 1 && j < steps.len() ==> !(#[trigger] steps[i] is Write && #[trigger] steps[j] is Write)
}

/// `plan` forwards `input`: maximal writes of the bytes between the Ctrl+V
/// bytes, a paste for each Ctrl+V, in input order, then one flush.
pub open spec fn is_forward_plan(input: Seq<u8>, plan: Seq<StepView>) -> bool {
    &&& plan.len() > 0
    &&& plan.last() == StepView::Flush
    &&& is_split(plan.drop_last())
    &&& flatten(plan.drop_last()) == input
}

/// How often `b` occurs in `s`.
pub open spec fn occurrences(s: Seq<u8>, b: u8) -> nat
    decreases s.len(),
{
    if s.len() == 0 {
        0
    } else {
        occurrences(s.drop_last(), b) + if s.last() == b {
            1nat
        } else {
            0nat
        }
    }
}

/// How many pastes a sequence of steps holds.
pub open spec fn paste_count(steps: Seq<StepView>) -> nat
    decreases steps.len(),
{
    if steps.len() == 0 {
        0
    } else {
        paste_count(steps.drop_last()) + if steps.last() is Paste {
            1nat
        } else {
            0nat
        }
    }
}

proof fn lemma_flatten_push(steps: Seq<StepView>, step: StepView)
    ensures
        flatten(steps.push(step)) == flatten(steps) + expand(step),
{
    assert(steps.push(step).drop_last() =~= steps);
}

proof fn lemma_step_views_push(steps: Seq<ForwardStep>, step: ForwardStep)
    ensures
        step_views(steps.push(step)) == step_views(steps).push(step@),
{
    assert(step_views(steps.push(step)) =~= step_views(steps).push(step@));
}

/// Decides how to forward one chunk of terminal input to the ssh session.
///
/// The bytes between Ctrl+V bytes are written in runs; each Ctrl+V becomes
/// a paste in its place; a flush ends the chunk. [`InputForwarder`] hands
/// the steps out one by one and stops at the first failing write or flush.
pub fn forward_input_with(input: &[u8]) -> (plan: Vec<ForwardStep>)
    ensures
        is_forward_plan(input@, step_views(plan@)),
{
    let mut plan: Vec<ForwardStep> = Vec::new();
    let mut start: usize = 0;
    let mut i: usize = 0;
    assert(step_views(plan@) =~= Seq::<StepView>::empty());
    while i < input.len()
        invariant
            start <= i <= input.len(),
            is_split(step_views(plan@)),
            flatten(step_views(plan@)) == input@.subrange(0, start as int),
            step_views(plan@).len() == 0 || step_views(plan@).last() is Paste,
            !input@.subrange(start as int, i as int).contains(CTRL_V),
        decreases input.len() - i,
    {
        if input[i] == CTRL_V {
            if i > start {
                let run = slice_to_vec(slice_subrange(input, start, i));
                let ghost before = step_views(plan@);
                proof {
                    lemma_step_views_push(plan@, ForwardStep::Write(run));
                    lemma_flatten_push(before, StepView::Write(run@));
                    assert(input@.subrange(0, start as int) + input@.subrange(start as int, i as int)
                        =~= input@.subrange(0, i as int));
                }
                plan.push(ForwardStep::Write(run));
            }
            assert(flatten(step_views(plan@)) == input@.subrange(0, i as int));
            assert(step_views(plan@).len() == 0 || step_views(plan@).last() is Paste
                || step_views(plan@).last() is Write);
            let ghost before = step_views(plan@);
            proof {
                lemma_step_views_push(plan@, ForwardStep::Paste);
                lemma_flatten_push(before, StepView::Paste);
                assert(input@.subrange(0, i as int).push(CTRL_V) =~= input@.subrange(0, i + 1));
            }
            plan.push(ForwardStep::Paste);
            start = i + 1;
            assert(input@.subrange(start as int, i + 1) =~= Seq::<u8>::empty());
        } else {
            assert(input@.subrange(start as int, i + 1) =~= input@.subrange(start as int, i as int).push(input[i as int]));
        }
        i = i + 1;
    }
    if start < input.len() {
        let run = slice_to_vec(slice_subrange(input, start, input.len()));
        let ghost before = step_views(plan@);
        proof {
            lemma_step_views_push(plan@, ForwardStep::Write(run));
            lemma_flatten_push(before, StepView::Write(run@));
            assert(input@.subrange(0, start as int) + input@.subrange(start as int, input.len() as int)
                =~= input@);
        }
        plan.push(ForwardStep::Write(run));
    } else {
        assert(input@.subrange(0, start as int) =~= input@);
    }
    let ghost body = step_views(plan@);
    proof {
        lemma_step_views_push(plan@, ForwardStep::Flush);
        assert(body.push(StepView::Flush).drop_last() =~= body);
    }
    plan.push(ForwardStep::Flush);
    plan
}

proof fn lemma_split_drop_last(steps: Seq<StepView>)
    requires
        is_split(steps),
        steps.len() > 0,
    ensures
        is_split(steps.drop_last()),
{
    let d = steps.drop_last();
    assert forall|i: int| 0 <= i < d.len() implies is_split_step(#[trigger] d[i]) by {
        assert(d[i] == steps[i]);
    }
    assert forall|i: int, j: int|
        0 <= i && j == i + 1 && j < d.len() implies !(#[trigger] d[i] is Write && #[trigger] d[j] is Write) by {
        assert(d[i] == steps[i] && d[j] == steps[j]);
    }
}

/// The bytes that a split sequence ends with: a Ctrl+V after a paste, the
/// last write's bytes (which hold no Ctrl+V) after a write.
proof fn lemma_flatten_last(steps: Seq<StepView>)
    requires
        is_split(steps),
        steps.len() > 0,
    ensures
        flatten(steps).len() > 0,
        flatten(steps) == flatten(steps.drop_last()) + expand(steps.last()),
        steps.last() is Paste ==> flatten(steps).last() == CTRL_V,
        steps.last() is Write ==> flatten(steps).last() != CTRL_V,
{
    let last = steps.last();
    assert(is_split_step(steps[steps.len() - 1]));
    match last {
        StepView::Write(bytes) => {
            assert(flatten(steps).last() == bytes.last());
            if bytes.last() == CTRL_V {
                assert(bytes.contains(CTRL_V));
            }
        },
        _ => {},
    }
}

/// Two split sequences that stand for the same bytes are the same.
proof fn lemma_split_unique(a: Seq<StepView>, b: Seq<StepView>)
    requires
        is_split(a),
        is_split(b),
        flatten(a) == flatten(b),
    ensures
        a == b,
    decreases a.len() + b.len(),
{
    if a.len() == 0 && b.len() == 0 {
        assert(a =~= b);
    } else if a.len() == 0 {
        lemma_flatten_last(b);
    } else if b.len() == 0 {
        lemma_flatten_last(a);
    } else {
        lemma_flatten_last(a);
        lemma_flatten_last(b);
        lemma_split_drop_last(a);
        lemma_split_drop_last(b);
        let a1 = a.drop_last();
        let b1 = b.drop_last();
        let n = flatten(a).len();
        assert(is_split_step(a[a.len() - 1]));
        assert(is_split_step(b[b.len() - 1]));
        match (a.last(), b.last()) {
            (StepView::Paste, StepView::Paste) => {
                assert(flatten(a1) =~= flatten(a).drop_last());
                assert(flatten(b1) =~= flatten(b).drop_last());
                lemma_split_unique(a1, b1);
            },
            (StepView::Write(wa), StepView::Write(wb)) => {
                lemma_write_tails_agree(a, b);
                assert(flatten(a1) =~= flatten(a).subrange(0, n - wa.len()));
                assert(flatten(b1) =~= flatten(b).subrange(0, n - wb.len()));
                lemma_split_unique(a1, b1);
                assert(wa =~= flatten(a).subrange(n - wa.len(), n as int));
                assert(wb =~= flatten(b).subrange(n - wb.len(), n as int));
                assert(wa =~= wb);
            },
            (StepView::Paste, _) => {},
            (StepView::Write(_), _) => {},
            (StepView::Flush, _) => {},
        }
        assert(a =~= b) by {
            assert(a =~= a1.push(a.last()));
            assert(b =~= b1.push(b.last()));
        }
    }
}

/// When two split sequences for the same bytes both end in a write, the two
/// writes have the same length: each is everything after the last Ctrl+V.
proof fn lemma_write_tails_agree(a: Seq<StepView>, b: Seq<StepView>)
    requires
        is_split(a),
        is_split(b),
        flatten(a) == flatten(b),
        a.len() > 0,
        b.len() > 0,
        a.last() is Write,
        b.last() is Write,
    ensures
        a.last()->Write_0.len() == b.last()->Write_0.len(),
{
    lemma_write_not_shorter(a, b);
    lemma_write_not_shorter(b, a);
}

/// The last write of one sequence is at least as long as that of another
/// for the same bytes: a longer write would reach over the Ctrl+V of the
/// paste before the shorter one.
proof fn lemma_write_not_shorter(a: Seq<StepView>, b: Seq<StepView>)
    requires
        is_split(a),
        is_split(b),
        flatten(a) == flatten(b),
        a.len() > 0,
        b.len() > 0,
        a.last() is Write,
        b.last() is Write,
    ensures
        a.last()->Write_0.len() >= b.last()->Write_0.len(),
{
    let wa = a.last()->Write_0;
    let wb = b.last()->Write_0;
    if wa.len() < wb.len() {
        let a1 = a.drop_last();
        let b1 = b.drop_last();
        lemma_flatten_last(a);
        lemma_flatten_last(b);
        let n = flatten(a).len();
        assert(flatten(a1).len() > 0);
        assert(a1.len() > 0);
        // the step before the last write is a paste
        assert(!(a[a.len() - 2] is Write && a[a.len() - 1] is Write));
        assert(is_split_step(a[a.len() - 2]));
        assert(a1.last() == a[a.len() - 2]);
        lemma_split_drop_last(a);
        lemma_flatten_last(a1);
        let k = n - wa.len() - 1;
        assert(flatten(a)[k] == flatten(a1).last());
        assert(flatten(b)[k] == wb[k - flatten(b1).len()]);
        assert(is_split_step(b[b.len() - 1]));
        assert(wb.contains(CTRL_V));
    }
}

/// The steps for a chunk of input are determined by the chunk: any two
/// plans that forward the same input are equal.
pub proof fn lemma_forward_plan_unique(input: Seq<u8>, p: Seq<StepView>, q: Seq<StepView>)
    requires
        is_forward_plan(input, p),
        is_forward_plan(input, q),
    ensures
        p == q,
{
    lemma_split_unique(p.drop_last(), q.drop_last());
    assert(p =~= p.drop_last().push(StepView::Flush));
    assert(q =~= q.drop_last().push(StepView::Flush));
}

proof fn lemma_occurrences_concat(x: Seq<u8>, y: Seq<u8>, b: u8)
    ensures
        occurrences(x + y, b) == occurrences(x, b) + occurrences(y, b),
    decreases y.len(),
{
    if y.len() == 0 {
        assert(x + y =~= x);
    } else {
        lemma_occurrences_concat(x, y.drop_last(), b);
        assert((x + y).drop_last() =~= x + y.drop_last());
    }
}

proof fn lemma_occurrences_absent(s: Seq<u8>, b: u8)
    requires
        !s.contains(b),
    ensures
        occurrences(s, b) == 0,
    decreases s.len(),
{
    if s.len() > 0 {
        assert(!s.drop_last().contains(b)) by {
            if s.drop_last().contains(b) {
                let i = choose|i: int| 0 <= i < s.drop_last().len() && s.drop_last()[i] == b;
                assert(s[i] == b);
            }
        }
        lemma_occurrences_absent(s.drop_last(), b);
        assert(s.last() == s[s.len() - 1]);
    }
}

proof fn lemma_pastes_are_ctrl_v(steps: Seq<StepView>)
    requires
        is_split(steps),
    ensures
        paste_count(steps) == occurrences(flatten(steps), CTRL_V),
    decreases steps.len(),
{
    if steps.len() > 0 {
        lemma_split_drop_last(steps);
        lemma_pastes_are_ctrl_v(steps.drop_last());
        lemma_occurrences_concat(flatten(steps.drop_last()), expand(steps.last()), CTRL_V);
        assert(is_split_step(steps[steps.len() - 1]));
        match steps.last() {
            StepView::Write(bytes) => {
                lemma_occurrences_absent(bytes, CTRL_V);
                assert(paste_count(steps) == paste_count(steps.drop_last()));
            },
            StepView::Paste => {
                assert(seq![CTRL_V].drop_last() =~= Seq::<u8>::empty());
                assert(occurrences(seq![CTRL_V], CTRL_V) == occurrences(Seq::<u8>::empty(), CTRL_V) + 1);
                assert(paste_count(steps) == paste_count(steps.drop_last()) + 1);
            },
            StepView::Flush => {},
        }
    }
}

/// Every Ctrl+V in the input triggers exactly one paste, and nothing else
/// does: the number of pastes equals the number of Ctrl+V bytes.
pub proof fn lemma_one_paste_per_ctrl_v(input: Seq<u8>, plan: Seq<StepView>)
    requires
        is_forward_plan(input, plan),
    ensures
        paste_count(plan) == occurrences(input, CTRL_V),
{
    lemma_pastes_are_ctrl_v(plan.drop_last());
}

/// Input without Ctrl+V passes through untouched: it is written as one run
/// (nothing is written for an empty chunk), then flushed.
pub proof fn lemma_plain_input_passes_through(input: Seq<u8>, plan: Seq<StepView>)
    requires
        !input.contains(CTRL_V),
        is_forward_plan(input, plan),
    ensures
        plan == (if input.len() == 0 {
            seq![StepView::Flush]
        } else {
            seq![StepView::Write(input), StepView::Flush]
        }),
{
    let expected: Seq<StepView> = if input.len() == 0 {
        seq![StepView::Flush]
    } else {
        seq![StepView::Write(input), StepView::Flush]
    };
    let body = expected.drop_last();
    if input.len() == 0 {
        assert(body =~= Seq::<StepView>::empty());
    } else {
        assert(body =~= seq![StepView::Write(input)]);
        assert(body.drop_last() =~= Seq::<StepView>::empty());
        assert(flatten(Seq::<StepView>::empty()) == Seq::<u8>::empty());
        assert(flatten(body) == flatten(body.drop_last()) + expand(body.last()));
        assert(flatten(body) =~= input);
        assert(is_split_step(body[0]));
    }
    lemma_forward_plan_unique(input, plan, expected);
}

/// Forwarding of one chunk of input, step by step: the caller performs each
/// step it is handed and reports whether it succeeded; the first failure
/// ends the forwarding.
pub struct InputForwarder {
    steps: Vec<ForwardStep>,
    next: usize,
    failed: bool,
}

impl InputForwarder {
    /// The steps for the chunk.
    pub closed spec fn plan(&self) -> Seq<StepView> {
        step_views(self.steps@)
    }

    /// How many steps have been handed out.
    pub closed spec fn position(&self) -> nat {
        self.next as nat
    }

    /// Whether a write or flush has failed.
    pub closed spec fn has_failed(&self) -> bool {
        self.failed
    }

    /// Starts forwarding `input`: nothing handed out, nothing failed.
    pub fn new(input: &[u8]) -> (f: InputForwarder)
        ensures
            is_forward_plan(input@, f.plan()),
            f.position() == 0,
            !f.has_failed(),
    {
        InputForwarder { steps: forward_input_with(input), next: 0, failed: false }
    }

    /// The next step to perform, given whether the step handed out before
    /// succeeded (`true` before the first step and after a paste, whose
    /// outcome does not matter). After a failure no further step is handed
    /// out; after the last step neither.
    pub fn next_step(&mut self, previous_ok: bool) -> (step: Option<ForwardStep>)
        ensures
            final(self).plan() == old(self).plan(),
            old(self).has_failed() || !previous_ok ==> (step is None && final(self).has_failed()
                && final(self).position() == old(self).position()),
            !old(self).has_failed() && previous_ok && old(self).position() < old(self).plan().len() ==> (
            step matches Some(s) && s@ == old(self).plan()[old(self).position() as int]
                && final(self).position() == old(self).position() + 1 && !final(self).has_failed()),
            !old(self).has_failed() && previous_ok && old(self).position() >= old(self).plan().len() ==> (
            step is None && final(self).position() == old(self).position() && !final(self).has_failed()),
    {
        if self.failed || !previous_ok {
            self.failed = true;
            return None;
        }
        if self.next < self.steps.len() {
            let step = match &self.steps[self.next] {
                ForwardStep::Write(bytes) => ForwardStep::Write(slice_to_vec(bytes.as_slice())),
                ForwardStep::Paste => ForwardStep::Paste,
                ForwardStep::Flush => ForwardStep::Flush,
            };
            self.next = self.next + 1;
            Some(step)
        } else {
            None
        }
    }

    /// Whether every step was handed out and none failed.
    pub fn succeeded(&self) -> (ok: bool)
        ensures
            ok == (!self.has_failed() && self.position() >= self.plan().len()),
    {
        !self.failed && self.next >= self.steps.len()
    }
}

proof fn lemma_flatten_concat(a: Seq<StepView>, b: Seq<StepView>)
    ensures
        flatten(a + b) == flatten(a) + flatten(b),
    decreases b.len(),
{
    if b.len() == 0 {
        assert(a + b =~= a);
        assert(flatten(a) + flatten(b) =~= flatten(a));
    } else {
        lemma_flatten_concat(a, b.drop_last());
        assert((a + b).drop_last() =~= a + b.drop_last());
        assert((a + b).last() == b.last());
        assert(flatten(a) + flatten(b) =~= flatten(a) + flatten(b.drop_last()) + expand(b.last()));
    }
}

proof fn lemma_split_subrange(steps: Seq<StepView>, k: int)
    requires
        is_split(steps),
        0 <= k <= steps.len(),
    ensures
        is_split(steps.subrange(0, k)),
{
    let d = steps.subrange(0, k);
    assert forall|i: int| 0 <= i < d.len() implies is_split_step(#[trigger] d[i]) by {
        assert(d[i] == steps[i]);
    }
    assert forall|i: int, j: int|
        0 <= i && j == i + 1 && j < d.len() implies !(#[trigger] d[i] is Write && #[trigger] d[j] is Write) by {
        assert(d[i] == steps[i] && d[j] == steps[j]);
    }
}

/// What the first `k` steps of a plan have done: they stand for the first
/// `s` bytes of the input (`s` the length of what they stand for), and they
/// hold one paste for each Ctrl+V among those bytes. When the step at `k` is
/// a write, it writes the input bytes from `s` on. So when that write fails
/// and forwarding stops, the paste handler has run exactly for the Ctrl+V
/// bytes before position `s`.
pub proof fn lemma_steps_before_position(input: Seq<u8>, plan: Seq<StepView>, k: int)
    requires
        is_forward_plan(input, plan),
        0 <= k < plan.len(),
    ensures
        ({
            let done = plan.subrange(0, k);
            let s = flatten(done).len();
            &&& s <= input.len()
            &&& flatten(done) == input.subrange(0, s as int)
            &&& paste_count(done) == occurrences(input.subrange(0, s as int), CTRL_V)
            &&& plan[k] matches StepView::Write(bytes) ==> s + bytes.len() <= input.len()
                && bytes == input.subrange(s as int, (s + bytes.len()) as int)
        }),
{
    let body = plan.drop_last();
    let done = plan.subrange(0, k);
    let rest = body.subrange(k, body.len() as int);
    assert(done =~= body.subrange(0, k));
    assert(body =~= done + rest);
    let s = flatten(done).len();
    assert(flatten(body) == flatten(done) + flatten(rest)) by {
        lemma_flatten_concat(done, rest);
    }
    assert(flatten(done) =~= input.subrange(0, s as int));
    assert(paste_count(done) == occurrences(flatten(done), CTRL_V)) by {
        lemma_split_subrange(body, k);
        lemma_pastes_are_ctrl_v(done);
    }
    if k < body.len() {
        assert(rest[0] == plan[k]);
        assert(flatten(rest) == expand(rest[0]) + flatten(rest.drop_first())) by {
            lemma_flatten_front(rest);
        }
        if let StepView::Write(bytes) = plan[k] {
            assert(input =~= flatten(done) + (bytes + flatten(rest.drop_first())));
            assert(bytes =~= input.subrange(s as int, (s + bytes.len()) as int));
        }
    }
}

proof fn lemma_flatten_front(steps: Seq<StepView>)
    requires
        steps.len() > 0,
    ensures
        flatten(steps) == expand(steps[0]) + flatten(steps.drop_first()),
{
    let first = seq![steps[0]];
    assert(steps =~= first + steps.drop_first());
    lemma_flatten_concat(first, steps.drop_first());
    assert(first.drop_last() =~= Seq::<StepView>::empty());
    assert(flatten(Seq::<StepView>::empty()) == Seq::<u8>::empty());
    assert(flatten(first) == flatten(first.drop_last()) + expand(first.last()));
    assert(first.last() == steps[0]);
    assert(flatten(first) =~= expand(steps[0]));
}

/// A paste stands for exactly the byte `0x16` (Ctrl+V), and a write for
/// exactly its bytes.
pub proof fn lemma_paste_is_byte_0x16(bytes: Seq<u8>)
    ensures
        expand(StepView::Paste) == seq![0x16u8],
        expand(StepView::Write(bytes)) == bytes,
        expand(StepView::Flush).len() == 0,
{
}

} // verus!
