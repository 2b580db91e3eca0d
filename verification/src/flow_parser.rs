//! The flow explorer: a depth-first walk over basic blocks that follows
//! resolved jump targets, forks at conditional jumps, and bounds exploration
//! so cycles in the control-flow graph cannot run away.

use vstd::prelude::*;
use crate::calldata::Environment;
use crate::errors::EvmError;
use crate::flow::{Flow, SetModel, add_model, first_frontier_pos};
use crate::hex::Hex;
use crate::instruction::{Instruction, env_wf, stack_wf};
use crate::memory::mem_wf;
use crate::memory::{Memory, MemoryElement};
use crate::opcode::OpCodes;
use crate::parser::{
    InstructionMap, lemma_map_monotone, lemma_run_block_starts, map_wf, parse_instruction_set,
    run_block, section_models, spec_pos_of,
};
use crate::stack::StackElement;

verus! {

/// The most blocks one flow may hold: exploration past this cap keeps the
/// partial flow and stops following it.
pub const FLOW_CAP: usize = 25;

/// How deep one exploration may recurse: comfortably past the block cap, so
/// only the cap ever cuts a flow short in practice.
pub const EXPLORATION_FUEL: u64 = 64;

/// Whether a JUMPDEST instruction sits at byte offset `pcv` of the map.
pub open spec fn is_jumpdest_at(m: Seq<Instruction>, pcv: u128) -> bool {
    exists|i: int| 0 <= i < m.len() && (#[trigger] m[i].index.0) == pcv && m[i].opcode.code
        == OpCodes::JUMPDEST
}

/// Whether the block record arose from a symbolic run of the code at its
/// start offset: some seeding stack and memory yield a run that emits it.
pub open spec fn block_valid(m: Seq<Instruction>, env: Environment, b: SetModel) -> bool {
    exists|stk: Seq<StackElement>, mem: Seq<MemoryElement>|
        (#[trigger] run_block(m, spec_pos_of(m, b.start.0), b.start, stk, mem, None, env)) is Ok
            && (exists|k: int| 0 <= k < run_block(
            m,
            spec_pos_of(m, b.start.0),
            b.start,
            stk,
            mem,
            None,
            env,
        )->Ok_0.len() && (#[trigger] run_block(
            m,
            spec_pos_of(m, b.start.0),
            b.start,
            stk,
            mem,
            None,
            env,
        )->Ok_0[k]) == b)
}

/// Whether the block may legally stand in a flow: it is the entry block at
/// offset zero, or begins at a JUMPDEST instruction.
pub open spec fn start_ok(m: Seq<Instruction>, b: SetModel) -> bool {
    b.start.0 == 0 || is_jumpdest_at(m, b.start.0)
}

/// Whether every block of the flow is a genuine symbolic run result whose
/// start is the entry or a JUMPDEST, carrying a well-formed exit stack and
/// memory.
pub open spec fn flow_good(m: Seq<Instruction>, env: Environment, models: Seq<SetModel>) -> bool {
    forall|k: int| 0 <= k < models.len() ==> block_valid(m, env, #[trigger] models[k])
        && start_ok(m, models[k]) && stack_wf(models[k].stack) && mem_wf(models[k].mem)
}

/// The views of a sequence of flows.
pub open spec fn flow_views(v: Seq<Flow>) -> Seq<Seq<SetModel>> {
    v.map_values(|f: Flow| f@)
}

proof fn lemma_flow_views_push(v: Seq<Flow>, f: Flow)
    ensures
        flow_views(v.push(f)) == flow_views(v).push(f@),
{
    assert(flow_views(v.push(f)) =~= flow_views(v).push(f@));
}

proof fn lemma_flow_views_concat(a: Seq<Flow>, b: Seq<Flow>)
    ensures
        flow_views(a + b) == flow_views(a) + flow_views(b),
{
    assert(flow_views(a + b) =~= flow_views(a) + flow_views(b));
}

/// One exploration step, modeled: the flows that extending `f` along its
/// first frontier yields, paired with the error records the step leaves.
/// Out of fuel, or with no frontier, the flow stands as it is. A frontier
/// whose target names no JUMPDEST leaves one `MalformedJumpTarget` record
/// and no flow; a failing re-run leaves its error and no flow; a re-run
/// that emits nothing leaves the flow as it is; otherwise every emitted
/// block record extends its own copy of the flow, recursively, and a copy
/// that reaches the block cap is kept unexplored.
pub open spec fn spec_extend(
    m: Seq<Instruction>,
    env: Environment,
    f: Seq<SetModel>,
    fuel: u64,
) -> (Seq<Seq<SetModel>>, Seq<EvmError>)
    decreases fuel, 1int, 0int,
{
    if fuel == 0 {
        (seq![f], Seq::<EvmError>::empty())
    } else {
        let fi = first_frontier_pos(f);
        if fi >= f.len() {
            (seq![f], Seq::<EvmError>::empty())
        } else {
            let fr = f[fi];
            let t = fr.target->0;
            if !is_jumpdest_at(m, t.value.0) {
                (
                    Seq::<Seq<SetModel>>::empty(),
                    seq![EvmError::MalformedJumpTarget { pc: fr.end, target: t.value }],
                )
            } else {
                match run_block(m, spec_pos_of(m, t.value.0), t.value, fr.stack, fr.mem, None, env) {
                    Err(e) => (Seq::<Seq<SetModel>>::empty(), seq![e]),
                    Ok(ss) => if ss.len() == 0 {
                        (seq![f], Seq::<EvmError>::empty())
                    } else {
                        extend_each(m, env, f, ss, 0, fuel)
                    },
                }
            }
        }
    }
}

/// The flows and error records that extending `f` with each of the emitted
/// block records `ss[k..]` yields, one copy of `f` per record.
pub open spec fn extend_each(
    m: Seq<Instruction>,
    env: Environment,
    f: Seq<SetModel>,
    ss: Seq<SetModel>,
    k: int,
    fuel: u64,
) -> (Seq<Seq<SetModel>>, Seq<EvmError>)
    decreases fuel, 0int, ss.len() - k,
{
    if k < 0 || k >= ss.len() || fuel == 0 {
        (Seq::<Seq<SetModel>>::empty(), Seq::<EvmError>::empty())
    } else {
        let f2 = add_model(f, ss[k]);
        let here = if f2.len() < FLOW_CAP {
            spec_extend(m, env, f2, (fuel - 1) as u64)
        } else {
            (seq![f2], Seq::<EvmError>::empty())
        };
        let rest = extend_each(m, env, f, ss, k + 1, fuel);
        (here.0 + rest.0, here.1 + rest.1)
    }
}

/// The whole exploration, modeled: the entry block at offset zero is run
/// from an empty machine; a failing entry run leaves only its error record;
/// otherwise each emitted record opens one flow, extended by `spec_extend`.
pub open spec fn spec_explore(m: Seq<Instruction>, env: Environment) -> (
    Seq<Seq<SetModel>>,
    Seq<EvmError>,
) {
    match run_block(
        m,
        spec_pos_of(m, 0),
        Hex(0),
        Seq::<StackElement>::empty(),
        Seq::<MemoryElement>::empty(),
        None,
        env,
    ) {
        Err(e) => (Seq::<Seq<SetModel>>::empty(), seq![e]),
        Ok(ss) => explore_each(m, env, ss, 0),
    }
}

/// The flows and error records that opening one flow per entry record
/// `ss[k..]` yields.
pub open spec fn explore_each(
    m: Seq<Instruction>,
    env: Environment,
    ss: Seq<SetModel>,
    k: int,
) -> (Seq<Seq<SetModel>>, Seq<EvmError>)
    decreases ss.len() - k,
{
    if k < 0 || k >= ss.len() {
        (Seq::<Seq<SetModel>>::empty(), Seq::<EvmError>::empty())
    } else {
        let one = spec_extend(m, env, seq![ss[k]], EXPLORATION_FUEL);
        let rest = explore_each(m, env, ss, k + 1);
        (one.0 + rest.0, one.1 + rest.1)
    }
}

/// The flow explorer: walks the decoded instruction map from the entry
/// point and accumulates the explored flows, and an error record for every
/// branch that had to be abandoned.
pub struct FlowParser<'a> {
    instructions: &'a InstructionMap,
    flows: Vec<Flow>,
    errors: Vec<EvmError>,
}

impl<'a> FlowParser<'a> {
    /// The instruction map explored.
    pub closed spec fn instructions_view(&self) -> Seq<Instruction> {
        self.instructions@
    }

    /// The flows explored so far.
    pub closed spec fn flows_view(&self) -> Seq<Flow> {
        self.flows@
    }

    /// The error records of the abandoned branches.
    pub closed spec fn errors_view(&self) -> Seq<EvmError> {
        self.errors@
    }

    /// An explorer over the given map, with no flow explored yet.
    pub fn new(instructions: &'a InstructionMap) -> (r: FlowParser<'a>)
        ensures
            r.instructions_view() == instructions@,
            r.flows_view().len() == 0,
            r.errors_view().len() == 0,
    {
        FlowParser { instructions, flows: Vec::new(), errors: Vec::new() }
    }

    /// The flows explored so far.
    pub fn flows(&self) -> (r: &Vec<Flow>)
        ensures
            r@ == self.flows_view(),
    {
        &self.flows
    }

    /// One error record per abandoned flow branch: a jump to something that
    /// is no JUMPDEST, or a failing block run.
    pub fn errors(&self) -> (r: &Vec<EvmError>)
        ensures
            r@ == self.errors_view(),
    {
        &self.errors
    }

    /// Explores the program: exactly what `spec_explore` says of the map
    /// and environment. The entry block at offset zero opens one flow per
    /// exit it emits; each flow is extended along its frontier until every
    /// jump is expanded or the block cap cuts it short; a malformed or
    /// failing branch is dropped and leaves an error record. Every flow
    /// recorded holds only blocks that genuine symbolic runs produced, each
    /// starting at the entry or at a JUMPDEST.
    pub fn parse_flows(&mut self, env: &Environment)
        requires
            map_wf(old(self).instructions_view()),
            env_wf(*env),
        ensures
            final(self).instructions_view() == old(self).instructions_view(),
            flow_views(final(self).flows_view()) == flow_views(old(self).flows_view())
                + spec_explore(old(self).instructions_view(), *env).0,
            final(self).errors_view() == old(self).errors_view() + spec_explore(
                old(self).instructions_view(),
                *env,
            ).1,
            forall|fi: int| old(self).flows_view().len() <= fi < final(self).flows_view().len()
                ==> (#[trigger] final(self).flows_view()[fi]).wf() && flow_good(
                old(self).instructions_view(),
                *env,
                final(self).flows_view()[fi]@,
            ),
    {
        let ghost m = self.instructions@;
        let memory = Memory::new();
        let sections = match parse_instruction_set(
            Hex(0),
            self.instructions,
            None,
            memory,
            None,
            env,
        ) {
            Ok(s) => s,
            Err(e) => {
                // a fatal error inside the entry block: nothing to explore
                self.errors.push(e);
                proof {
                    assert(flow_views(self.flows@) =~= flow_views(old(self).flows@)
                        + Seq::<Seq<SetModel>>::empty());
                    assert(self.errors@ =~= old(self).errors@ + seq![e]);
                }
                return ;
            },
        };
        let ghost entry_run = run_block(
            m,
            spec_pos_of(m, 0),
            Hex(0),
            Seq::<StackElement>::empty(),
            Seq::<MemoryElement>::empty(),
            None,
            *env,
        );
        let ghost ssm = entry_run->Ok_0;
        let ghost whole = explore_each(m, *env, ssm, 0);
        proof {
            lemma_run_block_starts(
                m,
                spec_pos_of(m, 0),
                Hex(0),
                Seq::<StackElement>::empty(),
                Seq::<MemoryElement>::empty(),
                None,
                *env,
            );
            assert(section_models(sections@) == ssm);
            assert forall|k: int| 0 <= k < sections@.len() implies block_valid(
                m,
                *env,
                (#[trigger] sections@[k]).model(),
            ) && sections@[k].model().start.0 == 0 by {
                assert(sections@[k].model() == ssm[k]);
                assert(ssm[k].start == Hex(0));
                assert(run_block(
                    m,
                    spec_pos_of(m, ssm[k].start.0),
                    ssm[k].start,
                    Seq::<StackElement>::empty(),
                    Seq::<MemoryElement>::empty(),
                    None,
                    *env,
                ) is Ok);
                assert(run_block(
                    m,
                    spec_pos_of(m, ssm[k].start.0),
                    ssm[k].start,
                    Seq::<StackElement>::empty(),
                    Seq::<MemoryElement>::empty(),
                    None,
                    *env,
                )->Ok_0[k] == sections@[k].model());
            }
        }
        let ghost flows0 = self.flows@;
        let mut errs: Vec<EvmError> = Vec::new();
        let mut si: usize = 0;
        while si < sections.len()
            invariant
                si <= sections@.len(),
                m == self.instructions@,
                map_wf(m),
                env_wf(*env),
                ssm == section_models(sections@),
                whole == explore_each(m, *env, ssm, 0),
                flow_views(self.flows@) + explore_each(m, *env, ssm, si as int).0 == flow_views(
                    flows0,
                ) + whole.0,
                errs@ + explore_each(m, *env, ssm, si as int).1 == whole.1,
                self.flows@.len() >= flows0.len(),
                self.errors@ == old(self).errors@,
                forall|fi: int| 0 <= fi < flows0.len() ==> (#[trigger] self.flows@[fi])@
                    == flows0[fi]@,
                forall|fi: int| flows0.len() <= fi < self.flows@.len()
                    ==> (#[trigger] self.flows@[fi]).wf() && flow_good(m, *env, self.flows@[fi]@),
                forall|k: int| 0 <= k < sections@.len() ==> block_valid(
                    m,
                    *env,
                    (#[trigger] sections@[k]).model(),
                ) && sections@[k].model().start.0 == 0,
                forall|k: int| 0 <= k < sections@.len() ==> stack_wf(
                    (#[trigger] sections@[k]).model().stack,
                ) && mem_wf(sections@[k].model().mem),
            decreases sections@.len() - si,
        {
            let step = sections[si].clone();
            let flow = Flow::new(step);
            let ghost fv = flow@;
            proof {
                assert(fv =~= seq![sections@[si as int].model()]);
                assert(fv =~= seq![ssm[si as int]]);
                assert(flow_good(m, *env, fv));
            }
            let mut found = self.parse_next_step(flow, env, EXPLORATION_FUEL, &mut errs);
            let ghost before = self.flows@;
            let ghost found_v = found@;
            self.flows.append(&mut found);
            proof {
                assert(self.flows@ =~= before + found_v);
                lemma_flow_views_concat(before, found_v);
                assert(explore_each(m, *env, ssm, si as int).0 == spec_extend(
                    m,
                    *env,
                    seq![ssm[si as int]],
                    EXPLORATION_FUEL,
                ).0 + explore_each(m, *env, ssm, si + 1).0);
                assert((flow_views(before) + flow_views(found_v)) + explore_each(
                    m,
                    *env,
                    ssm,
                    si + 1,
                ).0 =~= flow_views(before) + (flow_views(found_v) + explore_each(
                    m,
                    *env,
                    ssm,
                    si + 1,
                ).0));
                assert(flow_views(before) + (flow_views(found_v) + explore_each(
                    m,
                    *env,
                    ssm,
                    si + 1,
                ).0) =~= flow_views(flows0) + whole.0);
                assert(errs@ + explore_each(m, *env, ssm, si + 1).1 =~= whole.1);
                assert forall|fi: int| flows0.len() <= fi < self.flows@.len() implies (#[trigger]
                self.flows@[fi]).wf() && flow_good(m, *env, self.flows@[fi]@) by {
                    if fi < before.len() {
                        assert(self.flows@[fi] == before[fi]);
                    } else {
                        assert(self.flows@[fi] == found_v[fi - before.len()]);
                    }
                }
            }
            si = si + 1;
        }
        let ghost errs_final = errs@;
        self.errors.append(&mut errs);
        proof {
            assert(explore_each(m, *env, ssm, sections@.len() as int).0
                =~= Seq::<Seq<SetModel>>::empty());
            assert(explore_each(m, *env, ssm, sections@.len() as int).1
                =~= Seq::<EvmError>::empty());
            assert(flow_views(self.flows@) + Seq::<Seq<SetModel>>::empty()
                =~= flow_views(self.flows@));
            assert(errs_final + Seq::<EvmError>::empty() =~= errs_final);
            assert(self.errors@ =~= old(self).errors@ + errs_final);
        }
    }

    /// Extends one flow along its frontier: exactly what `spec_extend` says
    /// of the flow. The frontier's resolved target is checked to be a
    /// JUMPDEST, the target block is re-run seeded with the frontier's exit
    /// stack and memory, and each exit the run emits extends its own copy
    /// of the flow. A flow with no frontier is complete; a branch past the
    /// block cap, or out of fuel, is kept as it stands; a malformed or
    /// failing branch is dropped and leaves an error record.
    fn parse_next_step(
        &self,
        flow: Flow,
        env: &Environment,
        fuel: u64,
        errors: &mut Vec<EvmError>,
    ) -> (r: Vec<Flow>)
        requires
            map_wf(self.instructions_view()),
            env_wf(*env),
            flow.wf(),
            flow_good(self.instructions_view(), *env, flow@),
        ensures
            flow_views(r@) == spec_extend(self.instructions_view(), *env, flow@, fuel).0,
            final(errors)@ == old(errors)@ + spec_extend(
                self.instructions_view(),
                *env,
                flow@,
                fuel,
            ).1,
            forall|fi: int| 0 <= fi < r@.len() ==> (#[trigger] r@[fi]).wf() && flow_good(
                self.instructions_view(),
                *env,
                r@[fi]@,
            ),
        decreases fuel,
    {
        let ghost m = self.instructions@;
        let ghost fm = flow@;
        if fuel == 0 {
            let ghost fv = flow@;
            let mut r: Vec<Flow> = Vec::new();
            r.push(flow);
            proof {
                assert(flow_views(r@) =~= seq![fv]);
                assert(final(errors)@ =~= old(errors)@ + Seq::<EvmError>::empty());
            }
            return r;
        }
        let fr_target;
        let fr_end;
        let seed_stack;
        let seed_mem;
        match flow.get_last_step() {
            Some(last) => {
                proof {
                    let fi = first_frontier_pos(flow@);
                    assert(flow@[fi] == last.model());
                    assert(stack_wf(flow@[fi].stack));
                    assert(mem_wf(flow@[fi].mem));
                }
                match &last.target {
                    Some(t) => {
                        fr_target = *t;
                        fr_end = last.end;
                        seed_stack = last.stack.clone();
                        seed_mem = last.memory.clone();
                    },
                    None => {
                        // a frontier block carries a resolved target
                        proof {
                            assert(false);
                        }
                        return Vec::new();
                    },
                }
            },
            None => {
                // no frontier: the flow is complete
                let ghost fv = flow@;
                let mut r: Vec<Flow> = Vec::new();
                r.push(flow);
                proof {
                    assert(first_frontier_pos(fv) >= fv.len());
                    assert(flow_views(r@) =~= seq![fv]);
                    assert(final(errors)@ =~= old(errors)@ + Seq::<EvmError>::empty());
                }
                return r;
            },
        }
        let ghost fi = first_frontier_pos(fm);
        let ghost fr = fm[fi];
        proof {
            assert(fr.target == Some(fr_target));
            assert(fr.end == fr_end);
            assert(fr.stack == seed_stack@);
            assert(fr.mem == seed_mem@);
        }
        // the resolved target must name a JUMPDEST instruction
        match self.instructions.get(fr_target.value) {
            Some(ins) => {
                if !(ins.opcode.code == OpCodes::JUMPDEST) {
                    proof {
                        assert(!is_jumpdest_at(m, fr_target.value.0)) by {
                            if is_jumpdest_at(m, fr_target.value.0) {
                                let j = choose|j: int| 0 <= j < m.len() && (#[trigger]
                                m[j].index.0) == fr_target.value.0 && m[j].opcode.code
                                    == OpCodes::JUMPDEST;
                                let i = choose|i: int| 0 <= i < m.len() && (#[trigger] m[i])
                                    == *ins && m[i].index.0 == fr_target.value.0;
                                if i < j {
                                    lemma_map_monotone(m, i, j);
                                } else if j < i {
                                    lemma_map_monotone(m, j, i);
                                }
                            }
                        }
                    }
                    // malformed jump target: the branch is dropped with a record
                    errors.push(EvmError::MalformedJumpTarget {
                        pc: fr_end,
                        target: fr_target.value,
                    });
                    proof {
                        assert(flow_views(Seq::<Flow>::empty())
                            =~= Seq::<Seq<SetModel>>::empty());
                        assert(final(errors)@ =~= old(errors)@ + seq![
                            EvmError::MalformedJumpTarget { pc: fr.end, target: fr_target.value },
                        ]);
                    }
                    return Vec::new();
                }
                proof {
                    assert(is_jumpdest_at(m, fr_target.value.0));
                }
            },
            None => {
                // the target is no instruction at all: dropped with a record
                proof {
                    assert(!is_jumpdest_at(m, fr_target.value.0));
                }
                errors.push(EvmError::MalformedJumpTarget {
                    pc: fr_end,
                    target: fr_target.value,
                });
                proof {
                    assert(flow_views(Seq::<Flow>::empty()) =~= Seq::<Seq<SetModel>>::empty());
                    assert(final(errors)@ =~= old(errors)@ + seq![
                        EvmError::MalformedJumpTarget { pc: fr.end, target: fr_target.value },
                    ]);
                }
                return Vec::new();
            },
        }
        // re-run the target block, seeded with the frontier's exit state
        let ghost seed_stack_view = seed_stack@;
        let ghost seed_mem_view = seed_mem@;
        let sections = match parse_instruction_set(
            fr_target.value,
            self.instructions,
            Some(seed_stack),
            seed_mem,
            None,
            env,
        ) {
            Ok(s) => s,
            Err(e) => {
                // a fatal error inside the block run: dropped with its record
                errors.push(e);
                proof {
                    assert(flow_views(Seq::<Flow>::empty()) =~= Seq::<Seq<SetModel>>::empty());
                    assert(final(errors)@ =~= old(errors)@ + seq![e]);
                }
                return Vec::new();
            },
        };
        let ghost target_run = run_block(
            m,
            spec_pos_of(m, fr_target.value.0),
            fr_target.value,
            seed_stack_view,
            seed_mem_view,
            None,
            *env,
        );
        let ghost ssm = target_run->Ok_0;
        proof {
            lemma_run_block_starts(
                m,
                spec_pos_of(m, fr_target.value.0),
                fr_target.value,
                seed_stack_view,
                seed_mem_view,
                None,
                *env,
            );
            assert(section_models(sections@) == ssm);
            assert forall|k: int| 0 <= k < sections@.len() implies block_valid(
                m,
                *env,
                (#[trigger] sections@[k]).model(),
            ) && start_ok(m, sections@[k].model()) by {
                assert(sections@[k].model() == ssm[k]);
                assert(ssm[k].start == fr_target.value);
                assert(run_block(
                    m,
                    spec_pos_of(m, ssm[k].start.0),
                    ssm[k].start,
                    seed_stack_view,
                    seed_mem_view,
                    None,
                    *env,
                ) is Ok);
                assert(run_block(
                    m,
                    spec_pos_of(m, ssm[k].start.0),
                    ssm[k].start,
                    seed_stack_view,
                    seed_mem_view,
                    None,
                    *env,
                )->Ok_0[k] == sections@[k].model());
            }
        }
        if sections.len() == 0 {
            let ghost fv = flow@;
            let mut r: Vec<Flow> = Vec::new();
            r.push(flow);
            proof {
                assert(flow_views(r@) =~= seq![fv]);
                assert(final(errors)@ =~= old(errors)@ + Seq::<EvmError>::empty());
            }
            return r;
        }
        let ghost whole = extend_each(m, *env, fm, ssm, 0, fuel);
        let ghost errs0 = errors@;
        let mut result: Vec<Flow> = Vec::new();
        let mut si: usize = 0;
        while si < sections.len()
            invariant
                si <= sections@.len(),
                m == self.instructions_view(),
                map_wf(m),
                env_wf(*env),
                flow.wf(),
                flow@ == fm,
                flow_good(m, *env, fm),
                fuel >= 1,
                ssm == section_models(sections@),
                whole == extend_each(m, *env, fm, ssm, 0, fuel),
                flow_views(result@) + extend_each(m, *env, fm, ssm, si as int, fuel).0
                    == whole.0,
                errors@ + extend_each(m, *env, fm, ssm, si as int, fuel).1 == errs0 + whole.1,
                forall|fi: int| 0 <= fi < result@.len() ==> (#[trigger] result@[fi]).wf()
                    && flow_good(m, *env, result@[fi]@),
                forall|k: int| 0 <= k < sections@.len() ==> block_valid(
                    m,
                    *env,
                    (#[trigger] sections@[k]).model(),
                ) && start_ok(m, sections@[k].model()),
                forall|k: int| 0 <= k < sections@.len() ==> stack_wf(
                    (#[trigger] sections@[k]).model().stack,
                ) && mem_wf(sections@[k].model().mem),
            decreases sections@.len() - si,
        {
            let sec = sections[si].clone();
            let mut f2 = flow.clone();
            f2.add_step(sec);
            let ghost f2v = f2@;
            proof {
                assert(f2v == add_model(fm, ssm[si as int]));
                assert(flow_good(m, *env, f2v)) by {
                    assert forall|k: int| 0 <= k < f2v.len() implies block_valid(
                        m,
                        *env,
                        #[trigger] f2v[k],
                    ) && start_ok(m, f2v[k]) && stack_wf(f2v[k].stack) && mem_wf(f2v[k].mem) by {
                        let p = crate::flow::start_pos_of(fm, ssm[si as int].start.0);
                        crate::flow::lemma_start_pos_bounds(fm, ssm[si as int].start.0, 0);
                        if p < fm.len() {
                            if k != p {
                                assert(f2v[k] == fm[k]);
                            } else {
                                assert(f2v[k] == ssm[si as int]);
                            }
                        } else {
                            if k < fm.len() {
                                assert(f2v[k] == fm[k]);
                            } else {
                                assert(f2v[k] == ssm[si as int]);
                            }
                        }
                    }
                }
            }
            let ghost here = if f2v.len() < FLOW_CAP {
                spec_extend(m, *env, f2v, (fuel - 1) as u64)
            } else {
                (seq![f2v], Seq::<EvmError>::empty())
            };
            let ghost result0 = result@;
            let ghost errors_before = errors@;
            if f2.len() < FLOW_CAP {
                let mut sub = self.parse_next_step(f2, env, fuel - 1, errors);
                let ghost sub_v = sub@;
                result.append(&mut sub);
                proof {
                    assert(result@ =~= result0 + sub_v);
                    lemma_flow_views_concat(result0, sub_v);
                    assert(flow_views(sub_v) == here.0);
                    assert(errors@ =~= errors_before + here.1);
                }
            } else {
                // block cap reached: the partial flow is preserved as it is
                result.push(f2);
                proof {
                    lemma_flow_views_push(result0, result@.last());
                    assert(result@ =~= result0.push(result@.last()));
                    assert(flow_views(result@) =~= flow_views(result0).push(f2v));
                    assert(flow_views(result0).push(f2v) =~= flow_views(result0) + here.0);
                    assert(errors@ =~= errors_before + here.1);
                }
            }
            proof {
                assert(extend_each(m, *env, fm, ssm, si as int, fuel).0 == here.0 + extend_each(
                    m,
                    *env,
                    fm,
                    ssm,
                    si + 1,
                    fuel,
                ).0);
                assert(extend_each(m, *env, fm, ssm, si as int, fuel).1 == here.1 + extend_each(
                    m,
                    *env,
                    fm,
                    ssm,
                    si + 1,
                    fuel,
                ).1);
                assert((flow_views(result0) + here.0) + extend_each(m, *env, fm, ssm, si + 1, fuel).0
                    =~= flow_views(result0) + (here.0 + extend_each(m, *env, fm, ssm, si + 1, fuel).0));
                assert((errors_before + here.1) + extend_each(m, *env, fm, ssm, si + 1, fuel).1
                    =~= errors_before + (here.1 + extend_each(m, *env, fm, ssm, si + 1, fuel).1));
            }
            si = si + 1;
        }
        proof {
            assert(extend_each(m, *env, fm, ssm, sections@.len() as int, fuel).0
                =~= Seq::<Seq<SetModel>>::empty());
            assert(extend_each(m, *env, fm, ssm, sections@.len() as int, fuel).1
                =~= Seq::<EvmError>::empty());
            assert(flow_views(result@) + Seq::<Seq<SetModel>>::empty() =~= flow_views(result@));
            assert(errors@ + Seq::<EvmError>::empty() =~= errors@);
            // the modeled step took the same branch the body took
            assert(spec_extend(m, *env, fm, fuel).0 == whole.0);
            assert(spec_extend(m, *env, fm, fuel).1 == whole.1);
        }
        result
    }
}


/// Every flow an exploration step yields stays within the block cap,
/// provided the flow it extends is still below it.
pub proof fn lemma_extend_flows_capped(
    m: Seq<Instruction>,
    env: Environment,
    f: Seq<SetModel>,
    fuel: u64,
)
    requires
        f.len() < FLOW_CAP,
    ensures
        forall|i: int| 0 <= i < spec_extend(m, env, f, fuel).0.len()
            ==> (#[trigger] spec_extend(m, env, f, fuel).0[i]).len() <= FLOW_CAP,
    decreases fuel, 1int, 0int,
{
    if fuel == 0 {
        assert(spec_extend(m, env, f, fuel).0 == seq![f]);
    } else {
        let fi = first_frontier_pos(f);
        if fi >= f.len() {
            assert(spec_extend(m, env, f, fuel).0 == seq![f]);
        } else {
            let fr = f[fi];
            let t = fr.target->0;
            if is_jumpdest_at(m, t.value.0) {
                match run_block(m, spec_pos_of(m, t.value.0), t.value, fr.stack, fr.mem, None, env) {
                    Err(_) => {
                        assert(spec_extend(m, env, f, fuel).0 == Seq::<Seq<SetModel>>::empty());
                    },
                    Ok(ss) => {
                        if ss.len() > 0 {
                            lemma_extend_each_capped(m, env, f, ss, 0, fuel);
                            assert(spec_extend(m, env, f, fuel).0 == extend_each(
                                m,
                                env,
                                f,
                                ss,
                                0,
                                fuel,
                            ).0);
                        } else {
                            assert(spec_extend(m, env, f, fuel).0 == seq![f]);
                        }
                    },
                }
            } else {
                assert(spec_extend(m, env, f, fuel).0 == Seq::<Seq<SetModel>>::empty());
            }
        }
    }
}

/// The same cap, for the flows that each emitted block record yields.
proof fn lemma_extend_each_capped(
    m: Seq<Instruction>,
    env: Environment,
    f: Seq<SetModel>,
    ss: Seq<SetModel>,
    k: int,
    fuel: u64,
)
    requires
        f.len() < FLOW_CAP,
    ensures
        forall|i: int| 0 <= i < extend_each(m, env, f, ss, k, fuel).0.len()
            ==> (#[trigger] extend_each(m, env, f, ss, k, fuel).0[i]).len() <= FLOW_CAP,
    decreases fuel, 0int, ss.len() - k,
{
    if k < 0 || k >= ss.len() || fuel == 0 {
    } else {
        let f2 = add_model(f, ss[k]);
        crate::flow::lemma_start_pos_bounds(f, ss[k].start.0, 0);
        assert(f2.len() <= f.len() + 1);
        let here = if f2.len() < FLOW_CAP {
            spec_extend(m, env, f2, (fuel - 1) as u64)
        } else {
            (seq![f2], Seq::<EvmError>::empty())
        };
        if f2.len() < FLOW_CAP {
            lemma_extend_flows_capped(m, env, f2, (fuel - 1) as u64);
        }
        lemma_extend_each_capped(m, env, f, ss, k + 1, fuel);
        assert forall|i: int| 0 <= i < extend_each(m, env, f, ss, k, fuel).0.len() implies (
        #[trigger] extend_each(m, env, f, ss, k, fuel).0[i]).len() <= FLOW_CAP by {
            if i < here.0.len() {
                assert(extend_each(m, env, f, ss, k, fuel).0[i] == here.0[i]);
            } else {
                assert(extend_each(m, env, f, ss, k, fuel).0[i] == extend_each(
                    m,
                    env,
                    f,
                    ss,
                    k + 1,
                    fuel,
                ).0[i - here.0.len()]);
            }
        }
    }
}

/// Exploration is bounded: every explored flow holds at most the cap of
/// blocks, however cyclic the control-flow graph is.
pub proof fn lemma_explored_flows_capped(m: Seq<Instruction>, env: Environment)
    ensures
        forall|i: int| 0 <= i < spec_explore(m, env).0.len()
            ==> (#[trigger] spec_explore(m, env).0[i]).len() <= FLOW_CAP,
{
    match run_block(
        m,
        spec_pos_of(m, 0),
        Hex(0),
        Seq::<StackElement>::empty(),
        Seq::<MemoryElement>::empty(),
        None,
        env,
    ) {
        Err(_) => {},
        Ok(ss) => {
            lemma_explore_each_capped(m, env, ss, 0);
        },
    }
}

proof fn lemma_explore_each_capped(m: Seq<Instruction>, env: Environment, ss: Seq<SetModel>, k: int)
    ensures
        forall|i: int| 0 <= i < explore_each(m, env, ss, k).0.len()
            ==> (#[trigger] explore_each(m, env, ss, k).0[i]).len() <= FLOW_CAP,
    decreases ss.len() - k,
{
    if k < 0 || k >= ss.len() {
    } else {
        let one = spec_extend(m, env, seq![ss[k]], EXPLORATION_FUEL);
        lemma_extend_flows_capped(m, env, seq![ss[k]], EXPLORATION_FUEL);
        lemma_explore_each_capped(m, env, ss, k + 1);
        assert forall|i: int| 0 <= i < explore_each(m, env, ss, k).0.len() implies (#[trigger]
        explore_each(m, env, ss, k).0[i]).len() <= FLOW_CAP by {
            if i < one.0.len() {
                assert(explore_each(m, env, ss, k).0[i] == one.0[i]);
            } else {
                assert(explore_each(m, env, ss, k).0[i] == explore_each(m, env, ss, k + 1).0[i
                    - one.0.len()]);
            }
        }
    }
}

} // verus!
