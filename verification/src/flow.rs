//! Explored flows: symbolic block records and the map of one explored path
//! through the control-flow graph.

use vstd::prelude::*;
use crate::hex::Hex;
use crate::instruction::{JumpInstruction, JumpType};
use crate::memory::{Memory, MemoryElement};
use crate::stack::{Stack, StackElement};

verus! {

/// The mathematical content of a jump event record: everything but the
/// decoded instruction it was raised from.
pub struct JumpModel {
    pub jump_type: JumpType,
    pub target: StackElement,
    pub source: Hex,
    pub condition: Option<StackElement>,
}

/// The mathematical content of one symbolically executed block.
pub struct SetModel {
    pub start: Hex,
    pub end: Hex,
    pub target: Option<StackElement>,
    pub jump: Option<JumpModel>,
    pub stack: Seq<StackElement>,
    pub mem: Seq<MemoryElement>,
}

/// One symbolically executed basic block: where it began and ended, the
/// jump event that ended it (with its resolved target), and the stack and
/// memory as they stood at the exit.
#[derive(Debug)]
pub struct ParsedInstructionSet {
    pub start: Hex,
    pub end: Hex,
    pub target: Option<StackElement>,
    pub jump: Option<JumpInstruction>,
    pub stack: Stack,
    pub memory: Memory,
}

impl ParsedInstructionSet {
    /// The block record as a mathematical value.
    pub open spec fn model(&self) -> SetModel {
        SetModel {
            start: self.start,
            end: self.end,
            target: self.target,
            jump: match self.jump {
                Some(j) => Some(
                    JumpModel {
                        jump_type: j.jump_type,
                        target: j.target,
                        source: j.source,
                        condition: j.condition,
                    },
                ),
                None => None,
            },
            stack: self.stack@,
            mem: self.memory@,
        }
    }
}

impl Clone for ParsedInstructionSet {
    fn clone(&self) -> (r: ParsedInstructionSet)
        ensures
            r.model() == self.model(),
    {
        ParsedInstructionSet {
            start: self.start,
            end: self.end,
            target: self.target,
            jump: match &self.jump {
                Some(j) => Some(j.clone()),
                None => None,
            },
            stack: self.stack.clone(),
            memory: self.memory.clone(),
        }
    }
}

/// Whether some block of the sequence starts at byte offset `pcv`.
pub open spec fn contains_start(models: Seq<SetModel>, pcv: u128) -> bool {
    exists|i: int| 0 <= i < models.len() && (#[trigger] models[i].start.0) == pcv
}

/// Whether the block at position `i` is a frontier of the sequence: its
/// resolved target has not been expanded into a block of its own.
pub open spec fn is_frontier(models: Seq<SetModel>, i: int) -> bool {
    &&& 0 <= i < models.len()
    &&& models[i].target matches Some(t) && !contains_start(models, t.value.0)
}

/// The position of the first block starting at `pcv`, scanning from `k`;
/// the sequence's length where none does.
pub open spec fn start_pos_from(models: Seq<SetModel>, pcv: u128, k: int) -> int
    decreases models.len() - k,
{
    if k < 0 || k >= models.len() {
        models.len() as int
    } else if models[k].start.0 == pcv {
        k
    } else {
        start_pos_from(models, pcv, k + 1)
    }
}

/// The position of the first block starting at `pcv`, or the sequence's
/// length where none does.
pub open spec fn start_pos_of(models: Seq<SetModel>, pcv: u128) -> int {
    start_pos_from(models, pcv, 0)
}

/// The sequence after recording block `b`: a block with the same start is
/// replaced in place, any other start is appended.
pub open spec fn add_model(models: Seq<SetModel>, b: SetModel) -> Seq<SetModel> {
    let i = start_pos_of(models, b.start.0);
    if i < models.len() {
        models.update(i, b)
    } else {
        models.push(b)
    }
}

/// The first-match position is a position of the sequence or its length,
/// and where it is a position, the block there carries the looked-up start.
pub proof fn lemma_start_pos_bounds(models: Seq<SetModel>, pcv: u128, k: int)
    requires
        0 <= k,
    ensures
        0 <= start_pos_from(models, pcv, k) <= models.len(),
        start_pos_from(models, pcv, k) < models.len() ==> models[start_pos_from(
            models,
            pcv,
            k,
        )].start.0 == pcv,
    decreases models.len() - k,
{
    if k < models.len() && models[k].start.0 != pcv {
        lemma_start_pos_bounds(models, pcv, k + 1);
    }
}

/// The scan finds the first matching start: with no match before `i` and a
/// match at `i`, the position is `i`.
pub proof fn lemma_start_pos_found(models: Seq<SetModel>, pcv: u128, k: int, i: int)
    requires
        0 <= k <= i < models.len(),
        models[i].start.0 == pcv,
        forall|j: int| k <= j < i ==> (#[trigger] models[j].start.0) != pcv,
    ensures
        start_pos_from(models, pcv, k) == i,
    decreases i - k,
{
    if k < i {
        lemma_start_pos_found(models, pcv, k + 1, i);
    }
}

/// With no matching start at all, the position is the sequence's length.
pub proof fn lemma_start_pos_none(models: Seq<SetModel>, pcv: u128, k: int)
    requires
        0 <= k,
        forall|j: int| k <= j < models.len() ==> (#[trigger] models[j].start.0) != pcv,
    ensures
        start_pos_from(models, pcv, k) == models.len(),
    decreases models.len() - k,
{
    if k < models.len() {
        lemma_start_pos_none(models, pcv, k + 1);
    }
}

/// The position of the first frontier block, scanning from `k`; the
/// sequence's length where there is none.
pub open spec fn first_frontier_from(models: Seq<SetModel>, k: int) -> int
    decreases models.len() - k,
{
    if k < 0 || k >= models.len() {
        models.len() as int
    } else if is_frontier(models, k) {
        k
    } else {
        first_frontier_from(models, k + 1)
    }
}

/// The position of the first frontier block, or the sequence's length where
/// every resolved target is expanded.
pub open spec fn first_frontier_pos(models: Seq<SetModel>) -> int {
    first_frontier_from(models, 0)
}

/// The scan finds the first frontier: with none before `i` and one at `i`,
/// the position is `i`.
pub proof fn lemma_first_frontier_found(models: Seq<SetModel>, k: int, i: int)
    requires
        0 <= k <= i < models.len(),
        is_frontier(models, i),
        forall|j: int| k <= j < i ==> !is_frontier(models, j),
    ensures
        first_frontier_from(models, k) == i,
    decreases i - k,
{
    if k < i {
        lemma_first_frontier_found(models, k + 1, i);
    }
}

/// With no frontier at all, the position is the sequence's length.
pub proof fn lemma_first_frontier_none(models: Seq<SetModel>, k: int)
    requires
        0 <= k,
        forall|j: int| k <= j < models.len() ==> !is_frontier(models, j),
    ensures
        first_frontier_from(models, k) == models.len(),
    decreases models.len() - k,
{
    if k < models.len() {
        lemma_first_frontier_none(models, k + 1);
    }
}

/// One explored path through the control-flow graph: symbolically executed
/// blocks keyed by their start offset, each start held once.
#[derive(Debug)]
pub struct Flow {
    steps: Vec<ParsedInstructionSet>,
}

impl View for Flow {
    type V = Seq<SetModel>;

    closed spec fn view(&self) -> Seq<SetModel> {
        self.steps@.map_values(|p: ParsedInstructionSet| p.model())
    }
}

impl Clone for Flow {
    fn clone(&self) -> (r: Flow)
        ensures
            r@ == self@,
    {
        let mut steps: Vec<ParsedInstructionSet> = Vec::new();
        let mut i: usize = 0;
        while i < self.steps.len()
            invariant
                i <= self.steps@.len(),
                steps@.len() == i,
                forall|k: int| 0 <= k < i ==> (#[trigger] steps@[k].model())
                    == self.steps@[k].model(),
            decreases self.steps@.len() - i,
        {
            steps.push(self.steps[i].clone());
            i = i + 1;
        }
        let r = Flow { steps };
        proof {
            assert(r@ =~= self@);
        }
        r
    }
}

impl Flow {
    /// Every start is held at most once.
    pub open spec fn wf(&self) -> bool {
        forall|i: int, j: int| 0 <= i < j < self@.len() ==> (#[trigger] self@[i].start.0)
            != (#[trigger] self@[j].start.0)
    }

    /// A flow opened with one block.
    pub fn new(start: ParsedInstructionSet) -> (r: Flow)
        ensures
            r@ =~= seq![start.model()],
            r.wf(),
    {
        let mut steps: Vec<ParsedInstructionSet> = Vec::new();
        steps.push(start);
        let r = Flow { steps };
        proof {
            assert(r@ =~= seq![r.steps@[0].model()]);
        }
        r
    }

    /// Records a block: a block with the same start is replaced, any other
    /// start is appended.
    pub fn add_step(&mut self, step: ParsedInstructionSet)
        requires
            old(self).wf(),
        ensures
            final(self).wf(),
            final(self)@ == add_model(old(self)@, step.model()),
    {
        let ghost old_view = self@;
        let mut i: usize = 0;
        let n = self.steps.len();
        while i < n
            invariant
                i <= n,
                n == self.steps@.len(),
                self.steps@ == old(self).steps@,
                old(self).wf(),
                forall|k: int| 0 <= k < i ==> (#[trigger] self@[k].start.0) != step.start.0,
                old_view == self@,
                old_view == old(self)@,
            decreases n - i,
        {
            if self.steps[i].start.0 == step.start.0 {
                self.steps[i] = step;
                proof {
                    assert(self@[i as int] == self.steps@[i as int].model());
                    assert(self@ =~= old_view.update(i as int, step.model()));
                    assert(old_view[i as int].start.0 == step.start.0);
                    assert(contains_start(old_view, step.start.0));
                    lemma_start_pos_found(old_view, step.start.0, 0, i as int);
                    assert forall|a: int, b: int| 0 <= a < b < self@.len() implies (#[trigger]
                    self@[a].start.0) != (#[trigger] self@[b].start.0) by {
                        if a == i {
                            assert(self@[a].start.0 == step.start.0);
                        } else {
                            assert(self@[a] == old_view[a]);
                        }
                        if b == i {
                            assert(self@[b].start.0 == step.start.0);
                        } else {
                            assert(self@[b] == old_view[b]);
                        }
                        assert(old_view[a].start.0 != old_view[b].start.0);
                    }
                }
                return ;
            }
            i = i + 1;
        }
        self.steps.push(step);
        proof {
            assert(self@ =~= old_view.push(step.model()));
            assert(!contains_start(old_view, step.start.0));
            lemma_start_pos_none(old_view, step.start.0, 0);
            assert forall|a: int, b: int| 0 <= a < b < self@.len() implies (#[trigger]
            self@[a].start.0) != (#[trigger] self@[b].start.0) by {
                if b < old_view.len() {
                } else {
                    assert(self@[b] == step.model());
                    assert(self@[a] == old_view[a]);
                }
            }
        }
    }

    /// The first recorded block whose resolved target has not been expanded:
    /// the flow's frontier. `None` means every resolved target already has
    /// its block in the flow.
    pub fn get_last_step(&self) -> (r: Option<&ParsedInstructionSet>)
        ensures
            (r is Some) <==> first_frontier_pos(self@) < self@.len(),
            r matches Some(st) ==> self@[first_frontier_pos(self@)] == st.model()
                && is_frontier(self@, first_frontier_pos(self@)),
            r is None ==> forall|i: int| 0 <= i < self@.len() ==> !is_frontier(self@, i),
    {
        let n = self.steps.len();
        let mut i: usize = 0;
        while i < n
            invariant
                i <= n,
                n == self@.len(),
                forall|k: int| 0 <= k < i ==> !is_frontier(self@, k),
            decreases n - i,
        {
            let step = &self.steps[i];
            match &step.target {
                Some(t) => {
                    if self.find_start(t.value).is_none() {
                        proof {
                            assert(self@[i as int] == self.steps@[i as int].model());
                            assert(is_frontier(self@, i as int));
                            lemma_first_frontier_found(self@, 0, i as int);
                        }
                        return Some(step);
                    }
                },
                None => {},
            }
            i = i + 1;
        }
        proof {
            lemma_first_frontier_none(self@, 0);
        }
        None
    }

    /// The position of the block starting at `pcv`, where the flow holds
    /// one.
    fn find_start(&self, pcv: Hex) -> (r: Option<usize>)
        ensures
            r matches Some(i) ==> i < self@.len() && self@[i as int].start.0 == pcv.0,
            r is None ==> !contains_start(self@, pcv.0),
    {
        let mut i: usize = 0;
        let n = self.steps.len();
        while i < n
            invariant
                i <= n,
                n == self@.len(),
                forall|k: int| 0 <= k < i ==> (#[trigger] self@[k].start.0) != pcv.0,
            decreases n - i,
        {
            if self.steps[i].start.0 == pcv.0 {
                proof {
                    assert(self@[i as int] == self.steps@[i as int].model());
                }
                return Some(i);
            }
            i = i + 1;
        }
        None
    }

    /// Renders the flow as the chain of block starts reached from offset
    /// zero, one hop per recorded block at most.
    pub fn print(&self) -> (r: String)
    {
        let mut out = String::new();
        let mut at = Hex(0);
        let mut hops: usize = 0;
        let n = self.steps.len();
        while hops <= n
            invariant
                hops <= n + 1,
                n == self@.len(),
            decreases n + 1 - hops,
        {
            match self.find_start(at) {
                Some(i) => {
                    let step = &self.steps[i];
                    out.append("step start ");
                    out.append(crate::hex::hex_string(step.start).as_str());
                    out.append("; ");
                    match &step.target {
                        Some(t) => {
                            at = t.value;
                        },
                        None => {
                            out.append("END");
                            return out;
                        },
                    }
                },
                None => {
                    out.append("END");
                    return out;
                },
            }
            if hops == n {
                return out;
            }
            hops = hops + 1;
        }
        out
    }

    /// How many blocks the flow holds.
    pub fn len(&self) -> (r: usize)
        ensures
            r == self@.len(),
    {
        self.steps.len()
    }
}

/// In a flow without a frontier, every block's resolved target has a block
/// of its own: each recorded jump was expanded.
pub proof fn lemma_no_frontier_all_expanded(models: Seq<SetModel>)
    requires
        forall|i: int| 0 <= i < models.len() ==> !is_frontier(models, i),
    ensures
        forall|i: int| 0 <= i < models.len() && (#[trigger] models[i].target) is Some
            ==> contains_start(models, models[i].target->0.value.0),
{
    assert forall|i: int|
        0 <= i < models.len() && (#[trigger] models[i].target) is Some implies contains_start(
        models,
        models[i].target->0.value.0,
    ) by {
        assert(!is_frontier(models, i));
    }
}

/// Every block of a flow either has its resolved target expanded into a
/// block of the flow, or is itself one of the flow's frontiers.
pub proof fn lemma_frontier_closure(models: Seq<SetModel>, i: int)
    requires
        0 <= i < models.len(),
        models[i].target is Some,
    ensures
        contains_start(models, models[i].target->0.value.0) || is_frontier(models, i),
{
}

} // verus!
