//! The machine's own step semantics as a relation over configurations — the
//! frame stack and the current frame, with the function and operation tables
//! fixed — so that a whole run can be tied to what the instructions say,
//! independent of the code that interprets them.  Steps of generic
//! operations, which run host callbacks, are constrained only as far as
//! their flavor allows; every other instruction's step is fixed in full by
//! the same predicates the step functions ensure.
use vstd::prelude::*;
use crate::data::{gen_op_name, Coroutine, Frame, Fun, GenOp, Op};
use crate::error::{trace_matches, VmError};
use crate::step::{call_step_ok, co_install, gen_frame_post, is_first_oob, params_ok, same_core};

verus! {

/// The configuration can fetch an instruction: the current frame names a
/// known function and its pointer is inside that function.
pub open spec fn fetch_ok<T>(funs: Seq<Fun<T>>, cur: Frame<T>) -> bool {
    &&& cur.fun_id < funs.len()
    &&& cur.ip < funs[cur.fun_id as int].instrs@.len()
}

/// The instruction the configuration fetches.
pub open spec fn fetched<T>(funs: Seq<Fun<T>>, cur: Frame<T>) -> Op<T>
    recommends
        fetch_ok(funs, cur),
{
    funs[cur.fun_id as int].instrs@[cur.ip as int]
}

/// The machine halts in this configuration yielding `v`: the entry frame —
/// nothing stacked beneath it — executes a return, a plain one yielding
/// nothing and `ReturnLocal` yielding exactly the addressed local.
pub open spec fn halts_with<T: Clone>(
    funs: Seq<Fun<T>>,
    frames: Seq<Frame<T>>,
    cur: Frame<T>,
    v: Option<T>,
) -> bool {
    &&& fetch_ok(funs, cur)
    &&& frames.len() == 0
    &&& match fetched(funs, cur) {
        Op::Return => v is None,
        Op::ReturnLocal(slot) => slot < cur.locals@.len() && v == Some(cur.locals@[slot as int]),
        _ => false,
    }
}

/// The machine faults in this configuration with exactly the error `e`: the
/// variant and its payload are the ones the fetched instruction determines,
/// and the trace describes this very configuration.  For an error coming out
/// of a host callback only the operation's name is determined — and, when
/// the callback saw no more than the locals or the globals, the trace too.
pub open spec fn faults_with<T: Clone, H>(
    funs: Seq<Fun<T>>,
    ops: Seq<GenOp<H>>,
    frames: Seq<Frame<T>>,
    cur: Frame<T>,
    e: VmError,
) -> bool {
    if cur.fun_id >= funs.len() {
        (e matches VmError::FunDoesNotExist(i, t) && i == cur.fun_id && trace_matches(
            t@,
            funs,
            frames,
            cur,
        ))
    } else if cur.ip >= funs[cur.fun_id as int].instrs@.len() {
        (e matches VmError::InstrPointerOutOfRange(i, t) && i == cur.ip && trace_matches(
            t@,
            funs,
            frames,
            cur,
        ))
    } else {
        match fetched(funs, cur) {
            Op::Gen(op_index, _params) => {
                ||| (op_index >= ops.len() && (e matches VmError::GenOpDoesNotExist(i, t) && i
                    == op_index && trace_matches(t@, funs, frames, cur)))
                ||| (op_index < ops.len() && (e matches VmError::GenOpError(n, _c, t) && n@
                    == gen_op_name(ops[op_index as int])@ && ((ops[op_index as int]
                    matches GenOp::Local { .. } || ops[op_index as int]
                    matches GenOp::Global { .. }) ==> trace_matches(t@, funs, frames, cur))))
            },
            Op::Call(fun_index, params) => {
                ||| (fun_index >= funs.len() && (e matches VmError::FunDoesNotExist(i, t) && i
                    == fun_index && trace_matches(t@, funs, frames, cur)))
                ||| (fun_index < funs.len() && exists|j: int|
                    is_first_oob(params@, cur.locals@.len(), j) && (
                    e matches VmError::AccessMissingLocal(i, t) && i == params@[j]
                        && trace_matches(t@, funs, frames, cur)))
            },
            Op::DynCall(params) => match cur.dyn_call {
                Option::None => (e matches VmError::DynFunDoesNotExist(t) && trace_matches(
                    t@,
                    funs,
                    frames,
                    cur,
                )),
                Option::Some(target) => {
                    ||| (target >= funs.len() && (e matches VmError::FunDoesNotExist(i, t) && i
                        == target && trace_matches(t@, funs, frames, cur)))
                    ||| (target < funs.len() && exists|j: int|
                        is_first_oob(params@, cur.locals@.len(), j) && (
                        e matches VmError::AccessMissingLocal(i, t) && i == params@[j]
                            && trace_matches(t@, funs, frames, cur)))
                },
            },
            Op::ReturnLocal(slot) => slot >= cur.locals@.len() && (
            e matches VmError::AccessMissingLocal(i, t) && i == slot && trace_matches(
                t@,
                funs,
                frames,
                cur,
            )),
            Op::Return => false,
            Op::Branch(_target) => false,
            Op::Drop(i) => i >= cur.locals@.len() && (e matches VmError::AccessMissingLocal(i2, t)
                && i2 == i && trace_matches(t@, funs, frames, cur)),
            Op::Dup(i) => i >= cur.locals@.len() && (e matches VmError::AccessMissingLocal(i2, t)
                && i2 == i && trace_matches(t@, funs, frames, cur)),
            Op::Swap(a, b) => !(a < cur.locals@.len() && b < cur.locals@.len()) && (
            e matches VmError::AccessMissingLocal(i, t) && i == (if b >= cur.locals@.len() {
                b
            } else {
                a
            }) && trace_matches(t@, funs, frames, cur)),
            Op::PushRet => cur.ret is None && (e matches VmError::AccessMissingReturn(t)
                && trace_matches(t@, funs, frames, cur)),
            Op::PushLocal(_v) => false,
            Op::CoYield(slot) => {
                ||| (slot >= cur.locals@.len() && (e matches VmError::AccessMissingLocal(i, t) && i
                    == slot && trace_matches(t@, funs, frames, cur)))
                ||| (slot < cur.locals@.len() && frames.len() == 0 && e
                    == VmError::TopLevelYield(cur.ip))
            },
            Op::CoFinish => frames.len() == 0 && e == VmError::TopLevelYield(cur.ip),
            Op::CoResume(c) => {
                if c >= cur.coroutines@.len() {
                    (e matches VmError::AccessMissingCoroutine(i, t) && i == c && trace_matches(
                        t@,
                        funs,
                        frames,
                        cur,
                    ))
                } else {
                    match cur.coroutines@[c as int] {
                        Coroutine::Active(_child) => false,
                        Coroutine::Finished => (
                        e matches VmError::ResumeFinishedCoroutine(i, t) && i == c
                            && trace_matches(t@, funs, frames, cur)),
                        Coroutine::Running => (e matches VmError::ResumeRunningCoroutine(i, t) && i
                            == c && trace_matches(t@, funs, frames, cur)),
                    }
                }
            },
            Op::CoFinishSetBranch(c) => c >= cur.coroutines@.len() && (
            e matches VmError::AccessMissingCoroutine(i, t) && i == c && trace_matches(
                t@,
                funs,
                frames,
                cur,
            )),
            Op::CoDrop(c) => c >= cur.coroutines@.len() && (
            e matches VmError::AccessMissingCoroutine(i, t) && i == c && trace_matches(
                t@,
                funs,
                frames,
                cur,
            )),
            Op::CoDup(c) => c >= cur.coroutines@.len() && (
            e matches VmError::AccessMissingCoroutine(i, t) && i == c && trace_matches(
                t@,
                funs,
                frames,
                cur,
            )),
            Op::CoSwap(a, b) => !(a < cur.coroutines@.len() && b < cur.coroutines@.len()) && (
            e matches VmError::AccessMissingCoroutine(i, t) && i == (if b
                >= cur.coroutines@.len() {
                b
            } else {
                a
            }) && trace_matches(t@, funs, frames, cur)),
        }
    }
}

/// One surviving step of the machine, from the first configuration to the
/// second: what each instruction does, as the step contracts state it.  A
/// generic operation of the frame or whole-machine flavor may leave any
/// configuration behind — its callback received that much of the state — so
/// for it this relation constrains nothing; every other step is fixed.
pub open spec fn steps_to<T: Clone, H>(
    funs: Seq<Fun<T>>,
    ops: Seq<GenOp<H>>,
    f1: Seq<Frame<T>>,
    c1: Frame<T>,
    f2: Seq<Frame<T>>,
    c2: Frame<T>,
) -> bool {
    &&& fetch_ok(funs, c1)
    &&& match fetched(funs, c1) {
        Op::Gen(op_index, _params) => {
            &&& op_index < ops.len()
            &&& (ops[op_index as int] matches GenOp::Local { .. } ==> f2 == f1 && gen_frame_post(
                c1,
                c2,
                true,
                true,
            ))
            &&& (ops[op_index as int] matches GenOp::Global { .. } ==> f2 == f1 && gen_frame_post(
                c1,
                c2,
                true,
                false,
            ))
        },
        Op::Call(fun_index, params) => {
            &&& fun_index < funs.len()
            &&& params_ok(params@, c1.locals@.len())
            &&& call_step_ok(f1, c1, f2, c2, fun_index, params@)
        },
        Op::DynCall(params) => {
            &&& c1.dyn_call matches Some(target)
            &&& target < funs.len()
            &&& params_ok(params@, c1.locals@.len())
            &&& call_step_ok(f1, c1, f2, c2, target, params@)
        },
        Op::ReturnLocal(slot) => {
            &&& slot < c1.locals@.len()
            &&& f1.len() > 0
            &&& f2 == f1.drop_last()
            &&& c2 == (Frame { ret: Some(c1.locals@[slot as int]), ..f1.last() })
        },
        Op::Return => {
            &&& f1.len() > 0
            &&& f2 == f1.drop_last()
            &&& c2 == (Frame { ret: None, ..f1.last() })
        },
        Op::Branch(target) => {
            &&& f2 == f1
            &&& same_core(c1, c2)
            &&& c2.ret == c1.ret
            &&& c2.locals == c1.locals
            &&& c2.coroutines == c1.coroutines
            &&& c2.ip == if c1.branch {
                target as int
            } else {
                c1.ip + 1
            }
        },
        Op::Drop(i) => {
            &&& i < c1.locals@.len()
            &&& f2 == f1
            &&& same_core(c1, c2)
            &&& c2.ret == c1.ret
            &&& c2.coroutines == c1.coroutines
            &&& c2.ip == c1.ip + 1
            &&& c2.locals@ == c1.locals@.remove(i as int)
        },
        Op::Dup(i) => {
            &&& i < c1.locals@.len()
            &&& f2 == f1
            &&& same_core(c1, c2)
            &&& c2.ret == c1.ret
            &&& c2.coroutines == c1.coroutines
            &&& c2.ip == c1.ip + 1
            &&& c2.locals@ == c1.locals@.push(c2.locals@.last())
            &&& cloned::<T>(c1.locals@[i as int], c2.locals@.last())
        },
        Op::Swap(a, b) => {
            &&& a < c1.locals@.len()
            &&& b < c1.locals@.len()
            &&& f2 == f1
            &&& same_core(c1, c2)
            &&& c2.ret == c1.ret
            &&& c2.coroutines == c1.coroutines
            &&& c2.ip == c1.ip + 1
            &&& c2.locals@ == c1.locals@.update(a as int, c1.locals@[b as int]).update(
                b as int,
                c1.locals@[a as int],
            )
        },
        Op::PushRet => {
            &&& c1.ret is Some
            &&& f2 == f1
            &&& same_core(c1, c2)
            &&& c2.ret is None
            &&& c2.coroutines == c1.coroutines
            &&& c2.ip == c1.ip + 1
            &&& c2.locals@ == c1.locals@.push(c1.ret.unwrap())
        },
        Op::PushLocal(v) => {
            &&& f2 == f1
            &&& same_core(c1, c2)
            &&& c2.ret == c1.ret
            &&& c2.coroutines == c1.coroutines
            &&& c2.ip == c1.ip + 1
            &&& c2.locals@ == c1.locals@.push(c2.locals@.last())
            &&& cloned::<T>(v, c2.locals@.last())
        },
        Op::CoYield(slot) => {
            &&& slot < c1.locals@.len()
            &&& f1.len() > 0
            &&& f2 == f1.drop_last()
            &&& c2.fun_id == f1.last().fun_id
            &&& c2.ip == f1.last().ip
            &&& c2.branch == f1.last().branch
            &&& c2.dyn_call == f1.last().dyn_call
            &&& c2.locals == f1.last().locals
            &&& (c2.ret matches Some(y) && cloned::<T>(c1.locals@[slot as int], y))
            &&& co_install(
                f1.last().coroutines@,
                c2.coroutines@,
                Coroutine::Active((Frame { ip: ((c1.ip + 1) as usize), ..c1 })),
            )
        },
        Op::CoFinish => {
            &&& f1.len() > 0
            &&& f2 == f1.drop_last()
            &&& c2.fun_id == f1.last().fun_id
            &&& c2.ip == f1.last().ip
            &&& c2.branch == f1.last().branch
            &&& c2.dyn_call == f1.last().dyn_call
            &&& c2.locals == f1.last().locals
            &&& c2.ret is None
            &&& co_install(f1.last().coroutines@, c2.coroutines@, Coroutine::Finished)
        },
        Op::CoResume(c) => {
            &&& c < c1.coroutines@.len()
            &&& (c1.coroutines@[c as int] matches Coroutine::Active(child) && c2 == child)
            &&& f2.len() == f1.len() + 1
            &&& f2.drop_last() == f1
            &&& f2.last().fun_id == c1.fun_id
            &&& f2.last().ip == c1.ip + 1
            &&& f2.last().ret == c1.ret
            &&& f2.last().branch == c1.branch
            &&& f2.last().dyn_call == c1.dyn_call
            &&& f2.last().locals == c1.locals
            &&& f2.last().coroutines@ == c1.coroutines@.update(c as int, Coroutine::<T>::Running)
        },
        Op::CoFinishSetBranch(c) => {
            &&& c < c1.coroutines@.len()
            &&& f2 == f1
            &&& c2.fun_id == c1.fun_id
            &&& c2.dyn_call == c1.dyn_call
            &&& c2.ret == c1.ret
            &&& c2.locals == c1.locals
            &&& c2.ip == c1.ip + 1
            &&& c2.branch == (c1.coroutines@[c as int] is Finished)
            &&& c2.coroutines@ == if c1.coroutines@[c as int] is Finished {
                c1.coroutines@.remove(c as int)
            } else {
                c1.coroutines@
            }
        },
        Op::CoDrop(c) => {
            &&& c < c1.coroutines@.len()
            &&& f2 == f1
            &&& same_core(c1, c2)
            &&& c2.ret == c1.ret
            &&& c2.locals == c1.locals
            &&& c2.ip == c1.ip + 1
            &&& c2.coroutines@ == c1.coroutines@.remove(c as int)
        },
        Op::CoDup(c) => {
            &&& c < c1.coroutines@.len()
            &&& f2 == f1
            &&& same_core(c1, c2)
            &&& c2.ret == c1.ret
            &&& c2.locals == c1.locals
            &&& c2.ip == c1.ip + 1
            &&& c2.coroutines@ == c1.coroutines@.push(c2.coroutines@.last())
            &&& crate::data::co_similar(c1.coroutines@[c as int], c2.coroutines@.last())
        },
        Op::CoSwap(a, b) => {
            &&& a < c1.coroutines@.len()
            &&& b < c1.coroutines@.len()
            &&& f2 == f1
            &&& same_core(c1, c2)
            &&& c2.ret == c1.ret
            &&& c2.locals == c1.locals
            &&& c2.ip == c1.ip + 1
            &&& c2.coroutines@ == c1.coroutines@.update(a as int, c1.coroutines@[b as int]).update(
                b as int,
                c1.coroutines@[a as int],
            )
        },
    }
}

/// The second configuration is reachable from the first in exactly `n`
/// surviving steps.
pub open spec fn steps_n<T: Clone, H>(
    funs: Seq<Fun<T>>,
    ops: Seq<GenOp<H>>,
    f1: Seq<Frame<T>>,
    c1: Frame<T>,
    f2: Seq<Frame<T>>,
    c2: Frame<T>,
    n: nat,
) -> bool
    decreases n,
{
    if n == 0 {
        f2 == f1 && c2 == c1
    } else {
        exists|fm: Seq<Frame<T>>, cm: Frame<T>|
            #[trigger] steps_to(funs, ops, f1, c1, fm, cm) && steps_n(
                funs,
                ops,
                fm,
                cm,
                f2,
                c2,
                (n - 1) as nat,
            )
    }
}

/// A reachability in `n` steps extends by one more step at its end.
pub proof fn lemma_steps_snoc<T: Clone, H>(
    funs: Seq<Fun<T>>,
    ops: Seq<GenOp<H>>,
    f0: Seq<Frame<T>>,
    c0: Frame<T>,
    f1: Seq<Frame<T>>,
    c1: Frame<T>,
    f2: Seq<Frame<T>>,
    c2: Frame<T>,
    n: nat,
)
    requires
        steps_n(funs, ops, f0, c0, f1, c1, n),
        steps_to(funs, ops, f1, c1, f2, c2),
    ensures
        steps_n(funs, ops, f0, c0, f2, c2, n + 1),
    decreases n,
{
    if n == 0 {
        assert(steps_n(funs, ops, f2, c2, f2, c2, 0));
    } else {
        let (fm, cm) = choose|fm: Seq<Frame<T>>, cm: Frame<T>|
            #[trigger] steps_to(funs, ops, f0, c0, fm, cm) && steps_n(
                funs,
                ops,
                fm,
                cm,
                f1,
                c1,
                (n - 1) as nat,
            );
        lemma_steps_snoc(funs, ops, fm, cm, f1, c1, f2, c2, (n - 1) as nat);
    }
}

/// What a whole run may return from a starting configuration, given a step
/// budget: an outcome that the machine's own semantics admits at some
/// configuration reachable within the budget — the halt value or the first
/// faulting step's error — or, with the budget spent to the last step, that
/// the step limit was reached there.
pub open spec fn run_outcome<T: Clone, H>(
    funs: Seq<Fun<T>>,
    ops: Seq<GenOp<H>>,
    f0: Seq<Frame<T>>,
    c0: Frame<T>,
    r: Result<Option<T>, VmError>,
    budget: nat,
) -> bool {
    exists|n: nat, f1: Seq<Frame<T>>, c1: Frame<T>|
        {
            &&& n <= budget
            &&& #[trigger] steps_n(funs, ops, f0, c0, f1, c1, n)
            &&& match r {
                Result::Ok(v) => halts_with(funs, f1, c1, v),
                Result::Err(e) => faults_with(funs, ops, f1, c1, e) || (n == budget && (
                e matches VmError::StepLimitReached(t) && trace_matches(t@, funs, f1, c1))),
            }
        }
}

/// A fault the semantics admits at a reachable configuration is a
/// permissible run outcome.
pub proof fn lemma_outcome_from_fault<T: Clone, H>(
    funs: Seq<Fun<T>>,
    ops: Seq<GenOp<H>>,
    f0: Seq<Frame<T>>,
    c0: Frame<T>,
    f1: Seq<Frame<T>>,
    c1: Frame<T>,
    n: nat,
    budget: nat,
    e: VmError,
)
    requires
        n <= budget,
        steps_n(funs, ops, f0, c0, f1, c1, n),
        faults_with(funs, ops, f1, c1, e),
    ensures
        run_outcome(funs, ops, f0, c0, Result::<Option<T>, VmError>::Err(e), budget),
{
}

/// A halt the semantics admits at a reachable configuration is a
/// permissible run outcome.
pub proof fn lemma_outcome_from_halt<T: Clone, H>(
    funs: Seq<Fun<T>>,
    ops: Seq<GenOp<H>>,
    f0: Seq<Frame<T>>,
    c0: Frame<T>,
    f1: Seq<Frame<T>>,
    c1: Frame<T>,
    n: nat,
    budget: nat,
    v: Option<T>,
)
    requires
        n <= budget,
        steps_n(funs, ops, f0, c0, f1, c1, n),
        halts_with(funs, f1, c1, v),
    ensures
        run_outcome(funs, ops, f0, c0, Result::<Option<T>, VmError>::Ok(v), budget),
{
}

/// Giving up at the configuration the spent budget reaches is a permissible
/// run outcome.
pub proof fn lemma_outcome_from_limit<T: Clone, H>(
    funs: Seq<Fun<T>>,
    ops: Seq<GenOp<H>>,
    f0: Seq<Frame<T>>,
    c0: Frame<T>,
    f1: Seq<Frame<T>>,
    c1: Frame<T>,
    budget: nat,
    e: VmError,
)
    requires
        steps_n(funs, ops, f0, c0, f1, c1, budget),
        (e matches VmError::StepLimitReached(t) && trace_matches(t@, funs, f1, c1)),
    ensures
        run_outcome(funs, ops, f0, c0, Result::<Option<T>, VmError>::Err(e), budget),
{
}

} // verus!
