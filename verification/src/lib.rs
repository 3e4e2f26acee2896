//! A generic, embeddable stack-machine virtual machine: classical call and
//! return over a frame stack with per-frame locals, indirect dispatch through
//! a caller-supplied table of generic operations, and first-class resumable
//! coroutines owned by their parent frame.  Values are of two host-chosen
//! types: `T` for locals and return values, `S` for the globals.
use vstd::prelude::*;

pub mod data;
pub mod error;
pub mod laws;
pub mod semantics;
pub mod step;

verus! {

pub use crate::data::Coroutine;
pub use crate::data::Frame;
pub use crate::data::Fun;
pub use crate::data::GenOp;
pub use crate::data::HostOp;
pub use crate::data::Op;
pub use crate::data::VmEnv;
pub use crate::error::StackTrace;
pub use crate::error::VmError;

use crate::error::build_trace;
use crate::error::error_trace_ok;
use crate::error::trace_matches;
use crate::semantics::faults_with;
use crate::semantics::lemma_outcome_from_fault;
use crate::semantics::lemma_outcome_from_halt;
use crate::semantics::lemma_outcome_from_limit;
use crate::semantics::lemma_steps_snoc;
use crate::semantics::run_outcome;
use crate::semantics::steps_n;
use crate::semantics::steps_to;
use crate::step::lemma_first_oob_exists;
use crate::step::params_ok;
use crate::step::step_call;
use crate::step::step_co_finish;
use crate::step::step_co_resume;
use crate::step::step_co_yield;
use crate::step::step_dyn_call;
use crate::step::step_gen;
use crate::step::step_return;
use crate::step::step_return_local;
use crate::step::StepFlow;

/// A virtual machine: an immutable function table and operation table, the
/// globals, and the frame stack with its current (topmost, executing) frame
/// held separately.
pub struct Vm<T, S, H> {
    pub funs: Vec<Fun<T>>,
    pub ops: Vec<GenOp<H>>,
    pub globals: Vec<S>,
    pub frames: Vec<Frame<T>>,
    pub current: Frame<T>,
}

impl<T: Clone, S, H: HostOp<T, S>> Vm<T, S, H> {
    /// Builds a machine over the given function and operation tables, with no
    /// globals, an empty frame stack, and a blank entry frame.
    pub fn new(funs: Vec<Fun<T>>, ops: Vec<GenOp<H>>) -> (vm: Self)
        ensures
            vm.funs == funs,
            vm.ops == ops,
            vm.globals@.len() == 0,
            vm.frames@.len() == 0,
            vm.current.fun_id == 0,
            vm.current.ip == 0,
            vm.current.ret is None,
            vm.current.branch == false,
            vm.current.dyn_call is None,
            vm.current.locals@.len() == 0,
            vm.current.coroutines@.len() == 0,
    {
        let current = Frame {
            fun_id: 0,
            ip: 0,
            ret: None,
            branch: false,
            dyn_call: None,
            locals: Vec::new(),
            coroutines: Vec::new(),
        };
        Vm { funs, ops, globals: Vec::new(), frames: Vec::new(), current }
    }

    /// Installs or replaces the globals list, returning the prior list.
    pub fn with_globals(&mut self, globals: Vec<S>) -> (r: Vec<S>)
        ensures
            final(self).globals == globals,
            r == old(self).globals,
            final(self).funs == old(self).funs,
            final(self).ops == old(self).ops,
            final(self).frames == old(self).frames,
            final(self).current == old(self).current,
    {
        let mut g = globals;
        core::mem::swap(&mut self.globals, &mut g);
        g
    }

    /// The trace of the machine as it stands: one entry per frame including
    /// the current one, so the last entry points at the instruction under
    /// execution.
    fn stack_trace(&self) -> (t: StackTrace)
        ensures
            trace_matches(t@, self.funs@, self.frames@, self.current),
    {
        build_trace(&self.funs, &self.frames, &self.current)
    }

    /// Runs the machine from function `entry` until the entry invocation
    /// returns — yielding `Some` value for a `ReturnLocal`, none for a plain
    /// `Return` — or an instruction faults.  The result is always an outcome
    /// that the machine's own step semantics admits from the starting
    /// configuration ([`run_outcome`]): the halt value or the first faulting
    /// step's error, host callbacks aside, is the one the instructions
    /// determine.  The function and operation tables are never modified by a
    /// run.  The interpreter budgets one opcode per step and gives up,
    /// rather than looping forever, after an unreachably large number of
    /// steps.
    #[verifier::loop_isolation(false)]
    pub fn run(&mut self, entry: usize) -> (r: Result<Option<T>, VmError>)
        ensures
            final(self).funs == old(self).funs,
            final(self).ops == old(self).ops,
            r is Ok ==> final(self).frames@.len() == 0,
            r matches Err(e) ==> error_trace_ok(
                e,
                final(self).funs@,
                final(self).frames@,
                final(self).current,
            ),
            run_outcome(
                old(self).funs@,
                old(self).ops@,
                old(self).frames@,
                (Frame { fun_id: entry, ..old(self).current }),
                r,
                u64::MAX as nat,
            ),
            entry >= old(self).funs@.len() ==> (r matches Err(e)
                && e matches VmError::FunDoesNotExist(i, t) && i == entry && trace_matches(
                t@,
                old(self).funs@,
                old(self).frames@,
                (Frame { fun_id: entry, ..old(self).current }),
            )),
    {
        self.current.fun_id = entry;
        let ghost funs0 = self.funs@;
        let ghost ops0 = self.ops@;
        let ghost f0 = self.frames@;
        let ghost c0 = self.current;
        proof {
            assert(c0 == (Frame { fun_id: entry, ..old(self).current }));
            assert(steps_n(funs0, ops0, f0, c0, f0, c0, 0));
        }
        if entry >= self.funs.len() {
            let e = VmError::FunDoesNotExist(entry, self.stack_trace());
            proof {
                assert(faults_with(funs0, ops0, f0, c0, e));
                lemma_outcome_from_fault(funs0, ops0, f0, c0, f0, c0, 0, u64::MAX as nat, e);
            }
            return Err(e);
        }
        let mut fuel: u64 = u64::MAX;
        loop
            invariant
                self.funs == old(self).funs,
                self.ops == old(self).ops,
                steps_n(funs0, ops0, f0, c0, self.frames@, self.current, (u64::MAX - fuel) as nat),
            decreases fuel,
        {
            let ghost n_done = (u64::MAX - fuel) as nat;
            let ghost pre_frames = self.frames@;
            let ghost pre_cur = self.current;
            if fuel == 0 {
                let e = VmError::StepLimitReached(self.stack_trace());
                proof {
                    lemma_outcome_from_limit(
                        funs0,
                        ops0,
                        f0,
                        c0,
                        pre_frames,
                        pre_cur,
                        u64::MAX as nat,
                        e,
                    );
                }
                return Err(e);
            }
            fuel = fuel - 1;
            if self.current.fun_id >= self.funs.len() {
                let e = VmError::FunDoesNotExist(self.current.fun_id, self.stack_trace());
                proof {
                    assert(faults_with(funs0, ops0, pre_frames, pre_cur, e));
                    lemma_outcome_from_fault(
                        funs0,
                        ops0,
                        f0,
                        c0,
                        pre_frames,
                        pre_cur,
                        n_done,
                        u64::MAX as nat,
                        e,
                    );
                }
                return Err(e);
            }
            if self.current.ip >= self.funs[self.current.fun_id].instrs.len() {
                let e = VmError::InstrPointerOutOfRange(self.current.ip, self.stack_trace());
                proof {
                    assert(faults_with(funs0, ops0, pre_frames, pre_cur, e));
                    lemma_outcome_from_fault(
                        funs0,
                        ops0,
                        f0,
                        c0,
                        pre_frames,
                        pre_cur,
                        n_done,
                        u64::MAX as nat,
                        e,
                    );
                }
                return Err(e);
            }
            match &self.funs[self.current.fun_id].instrs[self.current.ip] {
                Op::Gen(op_index, ps) => {
                    let oi = *op_index;
                    match step_gen(
                        &self.funs,
                        &self.ops,
                        &mut self.globals,
                        &mut self.frames,
                        &mut self.current,
                        oi,
                        ps.as_slice(),
                    ) {
                        Some(e) => {
                            proof {
                                assert(crate::semantics::fetched(funs0, pre_cur) == Op::<T>::Gen(oi, *ps));
                                assert(faults_with(funs0, ops0, pre_frames, pre_cur, e));
                                lemma_outcome_from_fault(
                                    funs0,
                                    ops0,
                                    f0,
                                    c0,
                                    pre_frames,
                                    pre_cur,
                                    n_done,
                                    u64::MAX as nat,
                                    e,
                                );
                            }
                            return Err(e);
                        },
                        None => {
                            proof {
                                assert(crate::semantics::fetched(funs0, pre_cur) == Op::<T>::Gen(oi, *ps));
                                assert(steps_to(
                                    funs0,
                                    ops0,
                                    pre_frames,
                                    pre_cur,
                                    self.frames@,
                                    self.current,
                                ));
                                lemma_steps_snoc(
                                    funs0,
                                    ops0,
                                    f0,
                                    c0,
                                    pre_frames,
                                    pre_cur,
                                    self.frames@,
                                    self.current,
                                    n_done,
                                );
                            }
                        },
                    }
                },
                Op::Call(fun_index, ps) => {
                    let fi = *fun_index;
                    match step_call(
                        &self.funs,
                        &mut self.frames,
                        &mut self.current,
                        fi,
                        ps.as_slice(),
                    ) {
                        Some(e) => {
                            proof {
                                assert(crate::semantics::fetched(funs0, pre_cur) == Op::<T>::Call(fi, *ps));
                                if fi < funs0.len() && !params_ok(ps@, pre_cur.locals@.len()) {
                                    lemma_first_oob_exists(ps@, pre_cur.locals@.len());
                                }
                                assert(faults_with(funs0, ops0, pre_frames, pre_cur, e));
                                lemma_outcome_from_fault(
                                    funs0,
                                    ops0,
                                    f0,
                                    c0,
                                    pre_frames,
                                    pre_cur,
                                    n_done,
                                    u64::MAX as nat,
                                    e,
                                );
                            }
                            return Err(e);
                        },
                        None => {
                            proof {
                                assert(crate::semantics::fetched(funs0, pre_cur) == Op::<T>::Call(fi, *ps));
                                assert(steps_to(
                                    funs0,
                                    ops0,
                                    pre_frames,
                                    pre_cur,
                                    self.frames@,
                                    self.current,
                                ));
                                lemma_steps_snoc(
                                    funs0,
                                    ops0,
                                    f0,
                                    c0,
                                    pre_frames,
                                    pre_cur,
                                    self.frames@,
                                    self.current,
                                    n_done,
                                );
                            }
                        },
                    }
                },
                Op::DynCall(ps) => {
                    match step_dyn_call(
                        &self.funs,
                        &mut self.frames,
                        &mut self.current,
                        ps.as_slice(),
                    ) {
                        Some(e) => {
                            proof {
                                assert(crate::semantics::fetched(funs0, pre_cur) == Op::<T>::DynCall(*ps));
                                if pre_cur.dyn_call matches Some(target) && target < funs0.len()
                                    && !params_ok(ps@, pre_cur.locals@.len()) {
                                    lemma_first_oob_exists(ps@, pre_cur.locals@.len());
                                }
                                assert(faults_with(funs0, ops0, pre_frames, pre_cur, e));
                                lemma_outcome_from_fault(
                                    funs0,
                                    ops0,
                                    f0,
                                    c0,
                                    pre_frames,
                                    pre_cur,
                                    n_done,
                                    u64::MAX as nat,
                                    e,
                                );
                            }
                            return Err(e);
                        },
                        None => {
                            proof {
                                assert(crate::semantics::fetched(funs0, pre_cur) == Op::<T>::DynCall(*ps));
                                assert(steps_to(
                                    funs0,
                                    ops0,
                                    pre_frames,
                                    pre_cur,
                                    self.frames@,
                                    self.current,
                                ));
                                lemma_steps_snoc(
                                    funs0,
                                    ops0,
                                    f0,
                                    c0,
                                    pre_frames,
                                    pre_cur,
                                    self.frames@,
                                    self.current,
                                    n_done,
                                );
                            }
                        },
                    }
                },
                Op::ReturnLocal(slot) => {
                    let s = *slot;
                    match step_return_local(&self.funs, &mut self.frames, &mut self.current, s) {
                        Err(e) => {
                            proof {
                                assert(crate::semantics::fetched(funs0, pre_cur) == Op::<T>::ReturnLocal(s));
                                assert(faults_with(funs0, ops0, pre_frames, pre_cur, e));
                                lemma_outcome_from_fault(
                                    funs0,
                                    ops0,
                                    f0,
                                    c0,
                                    pre_frames,
                                    pre_cur,
                                    n_done,
                                    u64::MAX as nat,
                                    e,
                                );
                            }
                            return Err(e);
                        },
                        Ok(StepFlow::Halt(v)) => {
                            proof {
                                assert(crate::semantics::fetched(funs0, pre_cur) == Op::<T>::ReturnLocal(s));
                                lemma_outcome_from_halt(
                                    funs0,
                                    ops0,
                                    f0,
                                    c0,
                                    pre_frames,
                                    pre_cur,
                                    n_done,
                                    u64::MAX as nat,
                                    v,
                                );
                            }
                            return Ok(v);
                        },
                        Ok(StepFlow::Continue) => {
                            proof {
                                assert(crate::semantics::fetched(funs0, pre_cur) == Op::<T>::ReturnLocal(s));
                                assert(steps_to(
                                    funs0,
                                    ops0,
                                    pre_frames,
                                    pre_cur,
                                    self.frames@,
                                    self.current,
                                ));
                                lemma_steps_snoc(
                                    funs0,
                                    ops0,
                                    f0,
                                    c0,
                                    pre_frames,
                                    pre_cur,
                                    self.frames@,
                                    self.current,
                                    n_done,
                                );
                            }
                        },
                    }
                },
                Op::Return => {
                    match step_return(&mut self.frames, &mut self.current) {
                        StepFlow::Halt(v) => {
                            proof {
                                assert(crate::semantics::fetched(funs0, pre_cur) == Op::<T>::Return);
                                lemma_outcome_from_halt(
                                    funs0,
                                    ops0,
                                    f0,
                                    c0,
                                    pre_frames,
                                    pre_cur,
                                    n_done,
                                    u64::MAX as nat,
                                    v,
                                );
                            }
                            return Ok(v);
                        },
                        StepFlow::Continue => {
                            proof {
                                assert(crate::semantics::fetched(funs0, pre_cur) == Op::<T>::Return);
                                assert(steps_to(
                                    funs0,
                                    ops0,
                                    pre_frames,
                                    pre_cur,
                                    self.frames@,
                                    self.current,
                                ));
                                lemma_steps_snoc(
                                    funs0,
                                    ops0,
                                    f0,
                                    c0,
                                    pre_frames,
                                    pre_cur,
                                    self.frames@,
                                    self.current,
                                    n_done,
                                );
                            }
                        },
                    }
                },
                Op::Branch(target) => {
                    let t = *target;
                    self.current.exec_branch(t);
                    proof {
                        assert(crate::semantics::fetched(funs0, pre_cur) == Op::<T>::Branch(t));
                        assert(steps_to(funs0, ops0, pre_frames, pre_cur, self.frames@, self.current));
                        lemma_steps_snoc(
                            funs0,
                            ops0,
                            f0,
                            c0,
                            pre_frames,
                            pre_cur,
                            self.frames@,
                            self.current,
                            n_done,
                        );
                    }
                },
                Op::Drop(i) => {
                    let i = *i;
                    if !self.current.exec_drop(i) {
                        let e = VmError::AccessMissingLocal(i, self.stack_trace());
                        proof {
                            assert(crate::semantics::fetched(funs0, pre_cur) == Op::<T>::Drop(i));
                            assert(faults_with(funs0, ops0, pre_frames, pre_cur, e));
                            lemma_outcome_from_fault(
                                funs0,
                                ops0,
                                f0,
                                c0,
                                pre_frames,
                                pre_cur,
                                n_done,
                                u64::MAX as nat,
                                e,
                            );
                        }
                        return Err(e);
                    }
                    proof {
                        assert(crate::semantics::fetched(funs0, pre_cur) == Op::<T>::Drop(i));
                        assert(steps_to(funs0, ops0, pre_frames, pre_cur, self.frames@, self.current));
                        lemma_steps_snoc(
                            funs0,
                            ops0,
                            f0,
                            c0,
                            pre_frames,
                            pre_cur,
                            self.frames@,
                            self.current,
                            n_done,
                        );
                    }
                },
                Op::Dup(i) => {
                    let i = *i;
                    if !self.current.exec_dup(i) {
                        let e = VmError::AccessMissingLocal(i, self.stack_trace());
                        proof {
                            assert(crate::semantics::fetched(funs0, pre_cur) == Op::<T>::Dup(i));
                            assert(faults_with(funs0, ops0, pre_frames, pre_cur, e));
                            lemma_outcome_from_fault(
                                funs0,
                                ops0,
                                f0,
                                c0,
                                pre_frames,
                                pre_cur,
                                n_done,
                                u64::MAX as nat,
                                e,
                            );
                        }
                        return Err(e);
                    }
                    proof {
                        assert(crate::semantics::fetched(funs0, pre_cur) == Op::<T>::Dup(i));
                        assert(steps_to(funs0, ops0, pre_frames, pre_cur, self.frames@, self.current));
                        lemma_steps_snoc(
                            funs0,
                            ops0,
                            f0,
                            c0,
                            pre_frames,
                            pre_cur,
                            self.frames@,
                            self.current,
                            n_done,
                        );
                    }
                },
                Op::Swap(a, b) => {
                    let a = *a;
                    let b = *b;
                    if let Err(i) = self.current.exec_swap(a, b) {
                        let e = VmError::AccessMissingLocal(i, self.stack_trace());
                        proof {
                            assert(crate::semantics::fetched(funs0, pre_cur) == Op::<T>::Swap(a, b));
                            assert(faults_with(funs0, ops0, pre_frames, pre_cur, e));
                            lemma_outcome_from_fault(
                                funs0,
                                ops0,
                                f0,
                                c0,
                                pre_frames,
                                pre_cur,
                                n_done,
                                u64::MAX as nat,
                                e,
                            );
                        }
                        return Err(e);
                    }
                    proof {
                        assert(crate::semantics::fetched(funs0, pre_cur) == Op::<T>::Swap(a, b));
                        assert(steps_to(funs0, ops0, pre_frames, pre_cur, self.frames@, self.current));
                        lemma_steps_snoc(
                            funs0,
                            ops0,
                            f0,
                            c0,
                            pre_frames,
                            pre_cur,
                            self.frames@,
                            self.current,
                            n_done,
                        );
                    }
                },
                Op::PushRet => {
                    if !self.current.exec_push_ret() {
                        let e = VmError::AccessMissingReturn(self.stack_trace());
                        proof {
                            assert(crate::semantics::fetched(funs0, pre_cur) == Op::<T>::PushRet);
                            assert(faults_with(funs0, ops0, pre_frames, pre_cur, e));
                            lemma_outcome_from_fault(
                                funs0,
                                ops0,
                                f0,
                                c0,
                                pre_frames,
                                pre_cur,
                                n_done,
                                u64::MAX as nat,
                                e,
                            );
                        }
                        return Err(e);
                    }
                    proof {
                        assert(crate::semantics::fetched(funs0, pre_cur) == Op::<T>::PushRet);
                        assert(steps_to(funs0, ops0, pre_frames, pre_cur, self.frames@, self.current));
                        lemma_steps_snoc(
                            funs0,
                            ops0,
                            f0,
                            c0,
                            pre_frames,
                            pre_cur,
                            self.frames@,
                            self.current,
                            n_done,
                        );
                    }
                },
                Op::PushLocal(v) => {
                    self.current.exec_push_local(v);
                    proof {
                        assert(crate::semantics::fetched(funs0, pre_cur) == Op::<T>::PushLocal(*v));
                        assert(steps_to(funs0, ops0, pre_frames, pre_cur, self.frames@, self.current));
                        lemma_steps_snoc(
                            funs0,
                            ops0,
                            f0,
                            c0,
                            pre_frames,
                            pre_cur,
                            self.frames@,
                            self.current,
                            n_done,
                        );
                    }
                },
                Op::CoYield(slot) => {
                    let s = *slot;
                    match step_co_yield(&self.funs, &mut self.frames, &mut self.current, s) {
                        Some(e) => {
                            proof {
                                assert(crate::semantics::fetched(funs0, pre_cur) == Op::<T>::CoYield(s));
                                assert(faults_with(funs0, ops0, pre_frames, pre_cur, e));
                                lemma_outcome_from_fault(
                                    funs0,
                                    ops0,
                                    f0,
                                    c0,
                                    pre_frames,
                                    pre_cur,
                                    n_done,
                                    u64::MAX as nat,
                                    e,
                                );
                            }
                            return Err(e);
                        },
                        None => {
                            proof {
                                assert(crate::semantics::fetched(funs0, pre_cur) == Op::<T>::CoYield(s));
                                assert(steps_to(
                                    funs0,
                                    ops0,
                                    pre_frames,
                                    pre_cur,
                                    self.frames@,
                                    self.current,
                                ));
                                lemma_steps_snoc(
                                    funs0,
                                    ops0,
                                    f0,
                                    c0,
                                    pre_frames,
                                    pre_cur,
                                    self.frames@,
                                    self.current,
                                    n_done,
                                );
                            }
                        },
                    }
                },
                Op::CoFinish => {
                    match step_co_finish(&mut self.frames, &mut self.current) {
                        Some(e) => {
                            proof {
                                assert(crate::semantics::fetched(funs0, pre_cur) == Op::<T>::CoFinish);
                                assert(faults_with(funs0, ops0, pre_frames, pre_cur, e));
                                lemma_outcome_from_fault(
                                    funs0,
                                    ops0,
                                    f0,
                                    c0,
                                    pre_frames,
                                    pre_cur,
                                    n_done,
                                    u64::MAX as nat,
                                    e,
                                );
                            }
                            return Err(e);
                        },
                        None => {
                            proof {
                                assert(crate::semantics::fetched(funs0, pre_cur) == Op::<T>::CoFinish);
                                assert(steps_to(
                                    funs0,
                                    ops0,
                                    pre_frames,
                                    pre_cur,
                                    self.frames@,
                                    self.current,
                                ));
                                lemma_steps_snoc(
                                    funs0,
                                    ops0,
                                    f0,
                                    c0,
                                    pre_frames,
                                    pre_cur,
                                    self.frames@,
                                    self.current,
                                    n_done,
                                );
                            }
                        },
                    }
                },
                Op::CoResume(c) => {
                    let c = *c;
                    match step_co_resume(&self.funs, &mut self.frames, &mut self.current, c) {
                        Some(e) => {
                            proof {
                                assert(crate::semantics::fetched(funs0, pre_cur) == Op::<T>::CoResume(c));
                                assert(faults_with(funs0, ops0, pre_frames, pre_cur, e));
                                lemma_outcome_from_fault(
                                    funs0,
                                    ops0,
                                    f0,
                                    c0,
                                    pre_frames,
                                    pre_cur,
                                    n_done,
                                    u64::MAX as nat,
                                    e,
                                );
                            }
                            return Err(e);
                        },
                        None => {
                            proof {
                                assert(crate::semantics::fetched(funs0, pre_cur) == Op::<T>::CoResume(c));
                                assert(steps_to(
                                    funs0,
                                    ops0,
                                    pre_frames,
                                    pre_cur,
                                    self.frames@,
                                    self.current,
                                ));
                                lemma_steps_snoc(
                                    funs0,
                                    ops0,
                                    f0,
                                    c0,
                                    pre_frames,
                                    pre_cur,
                                    self.frames@,
                                    self.current,
                                    n_done,
                                );
                            }
                        },
                    }
                },
                Op::CoFinishSetBranch(c) => {
                    let c = *c;
                    if !self.current.exec_co_finish_set_branch(c) {
                        let e = VmError::AccessMissingCoroutine(c, self.stack_trace());
                        proof {
                            assert(crate::semantics::fetched(funs0, pre_cur) == Op::<T>::CoFinishSetBranch(c));
                            assert(faults_with(funs0, ops0, pre_frames, pre_cur, e));
                            lemma_outcome_from_fault(
                                funs0,
                                ops0,
                                f0,
                                c0,
                                pre_frames,
                                pre_cur,
                                n_done,
                                u64::MAX as nat,
                                e,
                            );
                        }
                        return Err(e);
                    }
                    proof {
                        assert(crate::semantics::fetched(funs0, pre_cur) == Op::<T>::CoFinishSetBranch(c));
                        assert(steps_to(funs0, ops0, pre_frames, pre_cur, self.frames@, self.current));
                        lemma_steps_snoc(
                            funs0,
                            ops0,
                            f0,
                            c0,
                            pre_frames,
                            pre_cur,
                            self.frames@,
                            self.current,
                            n_done,
                        );
                    }
                },
                Op::CoDrop(c) => {
                    let c = *c;
                    if !self.current.exec_co_drop(c) {
                        let e = VmError::AccessMissingCoroutine(c, self.stack_trace());
                        proof {
                            assert(crate::semantics::fetched(funs0, pre_cur) == Op::<T>::CoDrop(c));
                            assert(faults_with(funs0, ops0, pre_frames, pre_cur, e));
                            lemma_outcome_from_fault(
                                funs0,
                                ops0,
                                f0,
                                c0,
                                pre_frames,
                                pre_cur,
                                n_done,
                                u64::MAX as nat,
                                e,
                            );
                        }
                        return Err(e);
                    }
                    proof {
                        assert(crate::semantics::fetched(funs0, pre_cur) == Op::<T>::CoDrop(c));
                        assert(steps_to(funs0, ops0, pre_frames, pre_cur, self.frames@, self.current));
                        lemma_steps_snoc(
                            funs0,
                            ops0,
                            f0,
                            c0,
                            pre_frames,
                            pre_cur,
                            self.frames@,
                            self.current,
                            n_done,
                        );
                    }
                },
                Op::CoDup(c) => {
                    let c = *c;
                    if !self.current.exec_co_dup(c) {
                        let e = VmError::AccessMissingCoroutine(c, self.stack_trace());
                        proof {
                            assert(crate::semantics::fetched(funs0, pre_cur) == Op::<T>::CoDup(c));
                            assert(faults_with(funs0, ops0, pre_frames, pre_cur, e));
                            lemma_outcome_from_fault(
                                funs0,
                                ops0,
                                f0,
                                c0,
                                pre_frames,
                                pre_cur,
                                n_done,
                                u64::MAX as nat,
                                e,
                            );
                        }
                        return Err(e);
                    }
                    proof {
                        assert(crate::semantics::fetched(funs0, pre_cur) == Op::<T>::CoDup(c));
                        assert(steps_to(funs0, ops0, pre_frames, pre_cur, self.frames@, self.current));
                        lemma_steps_snoc(
                            funs0,
                            ops0,
                            f0,
                            c0,
                            pre_frames,
                            pre_cur,
                            self.frames@,
                            self.current,
                            n_done,
                        );
                    }
                },
                Op::CoSwap(a, b) => {
                    let a = *a;
                    let b = *b;
                    if let Err(i) = self.current.exec_co_swap(a, b) {
                        let e = VmError::AccessMissingCoroutine(i, self.stack_trace());
                        proof {
                            assert(crate::semantics::fetched(funs0, pre_cur) == Op::<T>::CoSwap(a, b));
                            assert(faults_with(funs0, ops0, pre_frames, pre_cur, e));
                            lemma_outcome_from_fault(
                                funs0,
                                ops0,
                                f0,
                                c0,
                                pre_frames,
                                pre_cur,
                                n_done,
                                u64::MAX as nat,
                                e,
                            );
                        }
                        return Err(e);
                    }
                    proof {
                        assert(crate::semantics::fetched(funs0, pre_cur) == Op::<T>::CoSwap(a, b));
                        assert(steps_to(funs0, ops0, pre_frames, pre_cur, self.frames@, self.current));
                        lemma_steps_snoc(
                            funs0,
                            ops0,
                            f0,
                            c0,
                            pre_frames,
                            pre_cur,
                            self.frames@,
                            self.current,
                            n_done,
                        );
                    }
                },
            }
        }
    }
}

} // verus!
