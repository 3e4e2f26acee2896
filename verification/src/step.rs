use vstd::prelude::*;
use crate::data::{co_similar, Coroutine, Frame, Fun, GenOp, HostOp, VmEnv};
use crate::error::{build_trace, trace_matches, VmError};

verus! {

/// The parts of a frame that no local-list or coroutine-list instruction may
/// touch: which function runs, the branch flag and the dynamic-call register.
pub open spec fn same_core<T>(a: Frame<T>, b: Frame<T>) -> bool {
    &&& b.fun_id == a.fun_id
    &&& b.branch == a.branch
    &&& b.dyn_call == a.dyn_call
}

/// Every parameter addresses an existing local.
pub open spec fn params_ok(params: Seq<usize>, n: nat) -> bool {
    forall|i: int| 0 <= i < params.len() ==> (#[trigger] params[i]) < n
}

/// `j` is the position of the first parameter that addresses a missing local.
pub open spec fn is_first_oob(params: Seq<usize>, n: nat, j: int) -> bool {
    &&& 0 <= j < params.len()
    &&& params[j] >= n
    &&& forall|i: int| 0 <= i < j ==> (#[trigger] params[i]) < n
}

/// Some parameter addresses a missing local, so a first such one exists.
pub proof fn lemma_first_oob_exists(params: Seq<usize>, n: nat)
    requires
        !params_ok(params, n),
    ensures
        exists|j: int| is_first_oob(params, n, j),
{
    assert(exists|i: int| 0 <= i < params.len() && (#[trigger] params[i]) >= n);
    let i = choose|i: int| 0 <= i < params.len() && (#[trigger] params[i]) >= n;
    let j = first_oob_index(params, n, i);
    assert(is_first_oob(params, n, j));
}

/// The position of the first out-of-range parameter at or before a known one.
proof fn first_oob_index(params: Seq<usize>, n: nat, i: int) -> (r: int)
    requires
        0 <= i < params.len(),
        params[i] >= n,
    ensures
        is_first_oob(params, n, r),
    decreases i,
{
    if exists|k: int| 0 <= k < i && (#[trigger] params[k]) >= n {
        let k = choose|k: int| 0 <= k < i && (#[trigger] params[k]) >= n;
        first_oob_index(params, n, k)
    } else {
        i
    }
}

/// No slot of the coroutine list is marked running.
pub open spec fn no_running<T>(cos: Seq<Coroutine<T>>) -> bool {
    forall|i: int| 0 <= i < cos.len() ==> !((#[trigger] cos[i]) is Running)
}

/// `j` is the position of the first slot marked running.
pub open spec fn is_first_running<T>(cos: Seq<Coroutine<T>>, j: int) -> bool {
    &&& 0 <= j < cos.len()
    &&& cos[j] is Running
    &&& forall|i: int| 0 <= i < j ==> !((#[trigger] cos[i]) is Running)
}

/// How a yielding or finishing child lands in its parent's coroutine list:
/// it replaces the first slot marked running — the slot the most recent
/// resume left behind — and is appended when no such slot exists.
pub open spec fn co_install<T>(
    pre: Seq<Coroutine<T>>,
    post: Seq<Coroutine<T>>,
    c: Coroutine<T>,
) -> bool {
    if no_running(pre) {
        post == pre.push(c)
    } else {
        forall|j: int| is_first_running(pre, j) ==> post == pre.update(j, c)
    }
}

/// Exchanges two elements of a vector.
fn vec_exchange<A>(v: &mut Vec<A>, a: usize, b: usize)
    requires
        a < old(v)@.len(),
        b < old(v)@.len(),
    ensures
        final(v)@ == old(v)@.update(a as int, old(v)@[b as int]).update(b as int, old(v)@[a as int]),
{
    let ghost pre = v@;
    if a == b {
        proof {
            assert(pre.update(a as int, pre[b as int]).update(b as int, pre[a as int]) =~= pre);
        }
    } else {
        let lo: usize = if a < b {
            a
        } else {
            b
        };
        let hi: usize = if a < b {
            b
        } else {
            a
        };
        let x = v.remove(hi);
        let y = v.remove(lo);
        v.insert(lo, x);
        v.insert(hi, y);
        proof {
            assert(v@ =~= pre.update(a as int, pre[b as int]).update(b as int, pre[a as int]));
        }
    }
}

/// Resolves a local index against a list of locals, producing a copy of the
/// addressed value; the single source of truth for "missing local".
pub fn get_local<T: Clone>(index: usize, locals: &Vec<T>) -> (r: Option<T>)
    ensures
        index < locals@.len() ==> (r matches Some(v) && cloned::<T>(locals@[index as int], v)),
        index >= locals@.len() ==> r is None,
{
    if index < locals.len() {
        Some(locals[index].clone())
    } else {
        None
    }
}

/// Copies the addressed locals out of a frame, in parameter order, into what
/// will become a callee's locals; stops at the first missing local.
pub fn gather_params<T: Clone>(locals: &Vec<T>, params: &[usize]) -> (r: Result<Vec<T>, usize>)
    ensures
        (match r {
            Result::Ok(vs) => {
                &&& params_ok(params@, locals@.len())
                &&& vs@.len() == params@.len()
                &&& forall|i: int|
                    0 <= i < params@.len() ==> cloned::<T>(
                        locals@[params@[i] as int],
                        #[trigger] vs@[i],
                    )
            },
            Result::Err(x) => {
                &&& !params_ok(params@, locals@.len())
                &&& forall|j: int| is_first_oob(params@, locals@.len(), j) ==> x == params@[j]
            },
        }),
{
    let mut vs: Vec<T> = Vec::new();
    let mut k: usize = 0;
    while k < params.len()
        invariant
            0 <= k <= params@.len(),
            vs@.len() == k,
            forall|i: int| 0 <= i < k ==> (#[trigger] params@[i]) < locals@.len(),
            forall|i: int|
                0 <= i < k ==> cloned::<T>(locals@[params@[i] as int], #[trigger] vs@[i]),
        decreases params@.len() - k,
    {
        let index = params[k];
        match get_local(index, locals) {
            Some(v) => {
                vs.push(v);
            },
            None => {
                return Result::Err(index);
            },
        }
        k = k + 1;
    }
    Result::Ok(vs)
}

impl<T: Clone> Frame<T> {
    /// `Branch(target)`: jump iff the branch flag is set, otherwise fall
    /// through; the flag itself is never modified by a branch.
    pub fn exec_branch(&mut self, target: usize)
        requires
            old(self).ip < usize::MAX,
        ensures
            final(self).branch == old(self).branch,
            final(self).fun_id == old(self).fun_id,
            final(self).dyn_call == old(self).dyn_call,
            final(self).ret == old(self).ret,
            final(self).locals == old(self).locals,
            final(self).coroutines == old(self).coroutines,
            final(self).ip == if old(self).branch {
                target as int
            } else {
                old(self).ip + 1
            },
    {
        if self.branch {
            self.ip = target;
        } else {
            self.ip = self.ip + 1;
        }
    }

    /// `Drop(i)`: remove local `i`, shifting the locals above it down.
    pub fn exec_drop(&mut self, i: usize) -> (r: bool)
        requires
            old(self).ip < usize::MAX,
        ensures
            r == (i < old(self).locals@.len()),
            !r ==> *final(self) == *old(self),
            r ==> {
                &&& same_core(*old(self), *final(self))
                &&& final(self).ret == old(self).ret
                &&& final(self).coroutines == old(self).coroutines
                &&& final(self).ip == old(self).ip + 1
                &&& final(self).locals@ == old(self).locals@.remove(i as int)
            },
    {
        if i < self.locals.len() {
            self.locals.remove(i);
            self.ip = self.ip + 1;
            true
        } else {
            false
        }
    }

    /// `Dup(i)`: append a copy of local `i`.
    pub fn exec_dup(&mut self, i: usize) -> (r: bool)
        requires
            old(self).ip < usize::MAX,
        ensures
            r == (i < old(self).locals@.len()),
            !r ==> *final(self) == *old(self),
            r ==> {
                &&& same_core(*old(self), *final(self))
                &&& final(self).ret == old(self).ret
                &&& final(self).coroutines == old(self).coroutines
                &&& final(self).ip == old(self).ip + 1
                &&& final(self).locals@ == old(self).locals@.push(final(self).locals@.last())
                &&& cloned::<T>(old(self).locals@[i as int], final(self).locals@.last())
            },
    {
        if i < self.locals.len() {
            let v = self.locals[i].clone();
            self.locals.push(v);
            self.ip = self.ip + 1;
            true
        } else {
            false
        }
    }

    /// `Swap(a, b)`: exchange locals `a` and `b`.  A missing index is
    /// reported back, the second one taking precedence.
    pub fn exec_swap(&mut self, a: usize, b: usize) -> (r: Result<(), usize>)
        requires
            old(self).ip < usize::MAX,
        ensures
            (r is Ok) == (a < old(self).locals@.len() && b < old(self).locals@.len()),
            r matches Err(i) ==> *final(self) == *old(self) && i == (if b
                >= old(self).locals@.len() {
                b
            } else {
                a
            }),
            r is Ok ==> {
                &&& same_core(*old(self), *final(self))
                &&& final(self).ret == old(self).ret
                &&& final(self).coroutines == old(self).coroutines
                &&& final(self).ip == old(self).ip + 1
                &&& final(self).locals@ == old(self).locals@.update(
                    a as int,
                    old(self).locals@[b as int],
                ).update(b as int, old(self).locals@[a as int])
            },
    {
        if a < self.locals.len() && b < self.locals.len() {
            vec_exchange(&mut self.locals, a, b);
            self.ip = self.ip + 1;
            Result::Ok(())
        } else if b < self.locals.len() {
            Result::Err(a)
        } else {
            Result::Err(b)
        }
    }

    /// `PushRet`: move the return-slot value onto the end of the locals,
    /// leaving the slot empty; fails if the slot already was.
    pub fn exec_push_ret(&mut self) -> (r: bool)
        requires
            old(self).ip < usize::MAX,
        ensures
            r == (old(self).ret is Some),
            !r ==> *final(self) == *old(self),
            r ==> {
                &&& same_core(*old(self), *final(self))
                &&& final(self).ret is None
                &&& final(self).coroutines == old(self).coroutines
                &&& final(self).ip == old(self).ip + 1
                &&& final(self).locals@ == old(self).locals@.push(old(self).ret.unwrap())
            },
    {
        let mut tmp: Option<T> = None;
        core::mem::swap(&mut self.ret, &mut tmp);
        match tmp {
            Some(v) => {
                self.locals.push(v);
                self.ip = self.ip + 1;
                true
            },
            None => false,
        }
    }

    /// `PushLocal(v)`: append a copy of the instruction's immediate value.
    pub fn exec_push_local(&mut self, v: &T)
        requires
            old(self).ip < usize::MAX,
        ensures
            same_core(*old(self), *final(self)),
            final(self).ret == old(self).ret,
            final(self).coroutines == old(self).coroutines,
            final(self).ip == old(self).ip + 1,
            final(self).locals@ == old(self).locals@.push(final(self).locals@.last()),
            cloned::<T>(*v, final(self).locals@.last()),
    {
        self.locals.push(v.clone());
        self.ip = self.ip + 1;
    }

    /// `CoDrop(c)`: remove coroutine `c`.
    pub fn exec_co_drop(&mut self, c: usize) -> (r: bool)
        requires
            old(self).ip < usize::MAX,
        ensures
            r == (c < old(self).coroutines@.len()),
            !r ==> *final(self) == *old(self),
            r ==> {
                &&& same_core(*old(self), *final(self))
                &&& final(self).ret == old(self).ret
                &&& final(self).locals == old(self).locals
                &&& final(self).ip == old(self).ip + 1
                &&& final(self).coroutines@ == old(self).coroutines@.remove(c as int)
            },
            crate::laws::frame_clean(*old(self)) ==> crate::laws::frame_clean(*final(self)),
    {
        if c < self.coroutines.len() {
            self.coroutines.remove(c);
            self.ip = self.ip + 1;
            true
        } else {
            false
        }
    }

    /// `CoDup(c)`: append a structural copy of coroutine `c`, its suspended
    /// frame cloned all the way down.
    pub fn exec_co_dup(&mut self, c: usize) -> (r: bool)
        requires
            old(self).ip < usize::MAX,
        ensures
            r == (c < old(self).coroutines@.len()),
            !r ==> *final(self) == *old(self),
            r ==> {
                &&& same_core(*old(self), *final(self))
                &&& final(self).ret == old(self).ret
                &&& final(self).locals == old(self).locals
                &&& final(self).ip == old(self).ip + 1
                &&& final(self).coroutines@ == old(self).coroutines@.push(
                    final(self).coroutines@.last(),
                )
                &&& co_similar(old(self).coroutines@[c as int], final(self).coroutines@.last())
            },
            crate::laws::frame_clean(*old(self)) ==> crate::laws::frame_clean(*final(self)),
    {
        if c < self.coroutines.len() {
            let copy = self.coroutines[c].clone();
            self.coroutines.push(copy);
            proof {
                if crate::laws::frame_clean(*old(self)) {
                    crate::laws::lemma_co_similar_preserves_clean(
                        old(self).coroutines@[c as int],
                        self.coroutines@.last(),
                    );
                }
            }
            self.ip = self.ip + 1;
            true
        } else {
            false
        }
    }

    /// `CoSwap(a, b)`: exchange coroutines `a` and `b`.  A missing index is
    /// reported back, the second one taking precedence.
    pub fn exec_co_swap(&mut self, a: usize, b: usize) -> (r: Result<(), usize>)
        requires
            old(self).ip < usize::MAX,
        ensures
            (r is Ok) == (a < old(self).coroutines@.len() && b < old(self).coroutines@.len()),
            r matches Err(i) ==> *final(self) == *old(self) && i == (if b
                >= old(self).coroutines@.len() {
                b
            } else {
                a
            }),
            r is Ok ==> {
                &&& same_core(*old(self), *final(self))
                &&& final(self).ret == old(self).ret
                &&& final(self).locals == old(self).locals
                &&& final(self).ip == old(self).ip + 1
                &&& final(self).coroutines@ == old(self).coroutines@.update(
                    a as int,
                    old(self).coroutines@[b as int],
                ).update(b as int, old(self).coroutines@[a as int])
            },
            crate::laws::frame_clean(*old(self)) ==> crate::laws::frame_clean(*final(self)),
    {
        if a < self.coroutines.len() && b < self.coroutines.len() {
            vec_exchange(&mut self.coroutines, a, b);
            self.ip = self.ip + 1;
            Result::Ok(())
        } else if b < self.coroutines.len() {
            Result::Err(a)
        } else {
            Result::Err(b)
        }
    }

    /// `CoFinishSetBranch(c)`: set the branch flag iff coroutine `c` has
    /// finished, destroying the finished coroutine in the same step; any
    /// other coroutine is left exactly where it is, with the flag cleared.
    pub fn exec_co_finish_set_branch(&mut self, c: usize) -> (r: bool)
        requires
            old(self).ip < usize::MAX,
        ensures
            r == (c < old(self).coroutines@.len()),
            !r ==> *final(self) == *old(self),
            r ==> {
                &&& final(self).fun_id == old(self).fun_id
                &&& final(self).dyn_call == old(self).dyn_call
                &&& final(self).ret == old(self).ret
                &&& final(self).locals == old(self).locals
                &&& final(self).ip == old(self).ip + 1
                &&& final(self).branch == (old(self).coroutines@[c as int] is Finished)
                &&& final(self).coroutines@ == if old(self).coroutines@[c as int] is Finished {
                    old(self).coroutines@.remove(c as int)
                } else {
                    old(self).coroutines@
                }
            },
            crate::laws::frame_clean(*old(self)) ==> crate::laws::frame_clean(*final(self)),
    {
        if c < self.coroutines.len() {
            let finished = match &self.coroutines[c] {
                Coroutine::Finished => true,
                _ => false,
            };
            if finished {
                self.branch = true;
                self.coroutines.remove(c);
            } else {
                self.branch = false;
            }
            self.ip = self.ip + 1;
            true
        } else {
            false
        }
    }
}

/// What a step that may end the run reports back: go on, or terminate with
/// the machine's result.
pub enum StepFlow<T> {
    Continue,
    Halt(Option<T>),
}

/// The state change of a successful call: the caller, advanced past the call
/// instruction, is pushed onto the stack, and the new current frame starts
/// `fun_index` from its first instruction with exactly the addressed values
/// as locals and everything else empty.
pub open spec fn call_step_ok<T: Clone>(
    pre_frames: Seq<Frame<T>>,
    pre_current: Frame<T>,
    post_frames: Seq<Frame<T>>,
    post_current: Frame<T>,
    fun_index: usize,
    params: Seq<usize>,
) -> bool {
    &&& post_frames == pre_frames.push(
        (Frame { ip: ((pre_current.ip + 1) as usize), ..pre_current }),
    )
    &&& post_current.fun_id == fun_index
    &&& post_current.ip == 0
    &&& post_current.ret is None
    &&& post_current.branch == false
    &&& post_current.dyn_call is None
    &&& post_current.coroutines@.len() == 0
    &&& post_current.locals@.len() == params.len()
    &&& forall|i: int|
        0 <= i < params.len() ==> cloned::<T>(
            pre_current.locals@[params[i] as int],
            #[trigger] post_current.locals@[i],
        )
}

/// Places a suspended or finished child into a coroutine list as
/// [`co_install`] describes: into the first slot marked running, or at the
/// end when no slot is marked.
fn install_coroutine<T>(cos: &mut Vec<Coroutine<T>>, c: Coroutine<T>)
    ensures
        co_install(old(cos)@, final(cos)@, c),
{
    let mut k: usize = 0;
    while k < cos.len()
        invariant
            0 <= k <= cos@.len(),
            cos@ == old(cos)@,
            forall|i: int| 0 <= i < k ==> !((#[trigger] cos@[i]) is Running),
        decreases cos@.len() - k,
    {
        if cos[k].is_running() {
            cos.set(k, c);
            return ;
        }
        k = k + 1;
    }
    cos.push(c);
}

/// `Call(fun_index, params)`: checks that the callee exists and that every
/// parameter addresses a local, and only then pushes the caller and enters
/// the callee; a fault leaves the machine exactly as it was.
pub fn step_call<T: Clone>(
    funs: &Vec<Fun<T>>,
    frames: &mut Vec<Frame<T>>,
    current: &mut Frame<T>,
    fun_index: usize,
    params: &[usize],
) -> (r: Option<VmError>)
    requires
        old(current).ip < usize::MAX,
    ensures
        (r is None) == (fun_index < funs@.len() && params_ok(
            params@,
            old(current).locals@.len(),
        )),
        r matches Some(e) ==> {
            &&& *final(frames) == *old(frames)
            &&& *final(current) == *old(current)
            &&& crate::error::error_trace_ok(e, funs@, old(frames)@, *old(current))
        },
        fun_index >= funs@.len() ==> {
            &&& *final(frames) == *old(frames)
            &&& *final(current) == *old(current)
            &&& (r matches Some(e) && e matches VmError::FunDoesNotExist(i, t) && i == fun_index
                && trace_matches(t@, funs@, old(frames)@, *old(current)))
        },
        fun_index < funs@.len() && !params_ok(params@, old(current).locals@.len()) ==> {
            &&& *final(frames) == *old(frames)
            &&& *final(current) == *old(current)
            &&& forall|j: int|
                is_first_oob(params@, old(current).locals@.len(), j) ==> (r matches Some(e)
                    && e matches VmError::AccessMissingLocal(i, t) && i == params@[j]
                    && trace_matches(t@, funs@, old(frames)@, *old(current)))
        },
        fun_index < funs@.len() && params_ok(params@, old(current).locals@.len()) ==> {
            &&& r is None
            &&& call_step_ok(
                old(frames)@,
                *old(current),
                final(frames)@,
                *final(current),
                fun_index,
                params@,
            )
        },
        crate::laws::machine_exclusive(old(frames)@, *old(current))
            ==> crate::laws::machine_exclusive(final(frames)@, *final(current)),
{
    if fun_index >= funs.len() {
        return Some(VmError::FunDoesNotExist(fun_index, build_trace(funs, frames, current)));
    }
    match gather_params(&current.locals, params) {
        Result::Err(i) => Some(VmError::AccessMissingLocal(i, build_trace(funs, frames, current))),
        Result::Ok(new_locals) => {
            current.ip = current.ip + 1;
            let mut caller = Frame {
                fun_id: fun_index,
                ip: 0,
                ret: None,
                branch: false,
                dyn_call: None,
                locals: new_locals,
                coroutines: Vec::new(),
            };
            core::mem::swap(current, &mut caller);
            frames.push(caller);
            proof {
                if crate::laws::machine_exclusive(old(frames)@, *old(current)) {
                    crate::laws::lemma_exclusive_call(
                        old(frames)@,
                        *old(current),
                        frames@,
                        *current,
                        frames@.last(),
                    );
                }
            }
            None
        },
    }
}

/// `DynCall(params)`: as a call, with the callee read (and kept) from the
/// frame's dynamic-call register; faults first if the register is empty.
pub fn step_dyn_call<T: Clone>(
    funs: &Vec<Fun<T>>,
    frames: &mut Vec<Frame<T>>,
    current: &mut Frame<T>,
    params: &[usize],
) -> (r: Option<VmError>)
    requires
        old(current).ip < usize::MAX,
    ensures
        (r is None) == (match old(current).dyn_call {
            Option::Some(target) => target < funs@.len() && params_ok(
                params@,
                old(current).locals@.len(),
            ),
            Option::None => false,
        }),
        r matches Some(e) ==> {
            &&& *final(frames) == *old(frames)
            &&& *final(current) == *old(current)
            &&& crate::error::error_trace_ok(e, funs@, old(frames)@, *old(current))
        },
        old(current).dyn_call is None ==> {
            &&& *final(frames) == *old(frames)
            &&& *final(current) == *old(current)
            &&& (r matches Some(e) && e matches VmError::DynFunDoesNotExist(t) && trace_matches(
                t@,
                funs@,
                old(frames)@,
                *old(current),
            ))
        },
        old(current).dyn_call matches Some(target) ==> {
            &&& target >= funs@.len() ==> {
                &&& *final(frames) == *old(frames)
                &&& *final(current) == *old(current)
                &&& (r matches Some(e) && e matches VmError::FunDoesNotExist(i, t) && i == target
                    && trace_matches(t@, funs@, old(frames)@, *old(current)))
            }
            &&& target < funs@.len() && !params_ok(params@, old(current).locals@.len()) ==> {
                &&& *final(frames) == *old(frames)
                &&& *final(current) == *old(current)
                &&& forall|j: int|
                    is_first_oob(params@, old(current).locals@.len(), j) ==> (r matches Some(e)
                        && e matches VmError::AccessMissingLocal(i, t) && i == params@[j]
                        && trace_matches(t@, funs@, old(frames)@, *old(current)))
            }
            &&& target < funs@.len() && params_ok(params@, old(current).locals@.len()) ==> {
                &&& r is None
                &&& call_step_ok(
                    old(frames)@,
                    *old(current),
                    final(frames)@,
                    *final(current),
                    target,
                    params@,
                )
            }
        },
        crate::laws::machine_exclusive(old(frames)@, *old(current))
            ==> crate::laws::machine_exclusive(final(frames)@, *final(current)),
{
    match current.dyn_call {
        None => Some(VmError::DynFunDoesNotExist(build_trace(funs, frames, current))),
        Some(target) => step_call(funs, frames, current, target, params),
    }
}

/// `Return`: pop the frame, discarding it, and empty the caller's return
/// slot; with no caller the machine halts yielding no value.
pub fn step_return<T>(frames: &mut Vec<Frame<T>>, current: &mut Frame<T>) -> (r: StepFlow<T>)
    ensures
        old(frames)@.len() == 0 ==> {
            &&& final(frames)@ == old(frames)@
            &&& *final(current) == *old(current)
            &&& r == StepFlow::<T>::Halt(None)
        },
        old(frames)@.len() > 0 ==> {
            &&& r == StepFlow::<T>::Continue
            &&& final(frames)@ == old(frames)@.drop_last()
            &&& *final(current) == (Frame { ret: None, ..old(frames)@.last() })
        },
        crate::laws::machine_exclusive(old(frames)@, *old(current)) && (old(frames)@.len() > 0
            ==> no_running(old(frames)@.last().coroutines@))
            ==> crate::laws::machine_exclusive(final(frames)@, *final(current)),
{
    match frames.pop() {
        None => StepFlow::Halt(None),
        Some(mut caller) => {
            caller.ret = None;
            *current = caller;
            proof {
                if crate::laws::machine_exclusive(old(frames)@, *old(current)) && no_running(
                    old(frames)@.last().coroutines@,
                ) {
                    crate::laws::lemma_exclusive_return(
                        old(frames)@,
                        *old(current),
                        frames@,
                        *current,
                    );
                }
            }
            StepFlow::Continue
        },
    }
}

/// `ReturnLocal(slot)`: pop the frame, moving local `slot` out of it and into
/// the caller's return slot; with no caller the machine halts yielding that
/// value.  A missing local faults with the frame still intact.
pub fn step_return_local<T: Clone>(
    funs: &Vec<Fun<T>>,
    frames: &mut Vec<Frame<T>>,
    current: &mut Frame<T>,
    slot: usize,
) -> (r: Result<StepFlow<T>, VmError>)
    ensures
        slot >= old(current).locals@.len() ==> {
            &&& *final(frames) == *old(frames)
            &&& *final(current) == *old(current)
            &&& (r matches Err(e) && e matches VmError::AccessMissingLocal(i, t) && i == slot
                && trace_matches(t@, funs@, old(frames)@, *old(current)))
        },
        slot < old(current).locals@.len() && old(frames)@.len() == 0 ==> {
            &&& final(frames)@ == old(frames)@
            &&& r == Result::<StepFlow<T>, VmError>::Ok(
                StepFlow::Halt(Some(old(current).locals@[slot as int])),
            )
        },
        slot < old(current).locals@.len() && old(frames)@.len() > 0 ==> {
            &&& r == Result::<StepFlow<T>, VmError>::Ok(StepFlow::Continue)
            &&& final(frames)@ == old(frames)@.drop_last()
            &&& *final(current) == (Frame {
                ret: Some(old(current).locals@[slot as int]),
                ..old(frames)@.last()
            })
        },
        crate::laws::machine_exclusive(old(frames)@, *old(current)) && (old(frames)@.len() > 0
            ==> no_running(old(frames)@.last().coroutines@))
            ==> crate::laws::machine_exclusive(final(frames)@, *final(current)),
{
    if slot >= current.locals.len() {
        return Result::Err(
            VmError::AccessMissingLocal(slot, build_trace(funs, frames, current)),
        );
    }
    let value = current.locals.swap_remove(slot);
    match frames.pop() {
        None => Result::Ok(StepFlow::Halt(Some(value))),
        Some(mut caller) => {
            caller.ret = Some(value);
            *current = caller;
            proof {
                if crate::laws::machine_exclusive(old(frames)@, *old(current)) && no_running(
                    old(frames)@.last().coroutines@,
                ) {
                    crate::laws::lemma_exclusive_return(
                        old(frames)@,
                        *old(current),
                        frames@,
                        *current,
                    );
                }
            }
            Result::Ok(StepFlow::Continue)
        },
    }
}

/// `CoYield(slot)`: suspend the current frame — advanced past the yield — as
/// a coroutine of its caller, install it as [`co_install`] describes, and
/// hand a copy of local `slot` to the caller's return slot.  Yielding from
/// the entry frame is an error.
pub fn step_co_yield<T: Clone>(
    funs: &Vec<Fun<T>>,
    frames: &mut Vec<Frame<T>>,
    current: &mut Frame<T>,
    slot: usize,
) -> (r: Option<VmError>)
    requires
        old(current).ip < usize::MAX,
    ensures
        slot >= old(current).locals@.len() ==> {
            &&& *final(frames) == *old(frames)
            &&& *final(current) == *old(current)
            &&& (r matches Some(e) && e matches VmError::AccessMissingLocal(i, t) && i == slot
                && trace_matches(t@, funs@, old(frames)@, *old(current)))
        },
        slot < old(current).locals@.len() && old(frames)@.len() == 0 ==> {
            &&& final(frames)@ == old(frames)@
            &&& *final(current) == *old(current)
            &&& r == Some(VmError::TopLevelYield(old(current).ip))
        },
        slot < old(current).locals@.len() && old(frames)@.len() > 0 ==> {
            &&& r is None
            &&& final(frames)@ == old(frames)@.drop_last()
            &&& final(current).fun_id == old(frames)@.last().fun_id
            &&& final(current).ip == old(frames)@.last().ip
            &&& final(current).branch == old(frames)@.last().branch
            &&& final(current).dyn_call == old(frames)@.last().dyn_call
            &&& final(current).locals == old(frames)@.last().locals
            &&& (final(current).ret matches Some(y) && cloned::<T>(
                old(current).locals@[slot as int],
                y,
            ))
            &&& co_install(
                old(frames)@.last().coroutines@,
                final(current).coroutines@,
                Coroutine::Active((Frame { ip: ((old(current).ip + 1) as usize), ..*old(current) })),
            )
        },
        crate::laws::machine_exclusive(old(frames)@, *old(current))
            ==> crate::laws::machine_exclusive(final(frames)@, *final(current)),
{
    let y = match get_local(slot, &current.locals) {
        None => {
            return Some(VmError::AccessMissingLocal(slot, build_trace(funs, frames, current)));
        },
        Some(v) => v,
    };
    match frames.pop() {
        None => Some(VmError::TopLevelYield(current.ip)),
        Some(caller) => {
            current.ip = current.ip + 1;
            let mut child = caller;
            core::mem::swap(current, &mut child);
            current.ret = Some(y);
            install_coroutine(&mut current.coroutines, Coroutine::Active(child));
            proof {
                if crate::laws::machine_exclusive(old(frames)@, *old(current)) {
                    crate::laws::lemma_exclusive_co_install(
                        old(frames)@,
                        *old(current),
                        frames@,
                        *current,
                        Coroutine::Active(
                            (Frame { ip: ((old(current).ip + 1) as usize), ..*old(current) }),
                        ),
                    );
                }
            }
            None
        },
    }
}

/// `CoFinish`: destroy the current frame and leave a finished coroutine in
/// the caller, installed as [`co_install`] describes; the caller's return
/// slot is emptied.  Finishing from the entry frame is an error.
pub fn step_co_finish<T>(frames: &mut Vec<Frame<T>>, current: &mut Frame<T>) -> (r: Option<
    VmError,
>)
    ensures
        old(frames)@.len() == 0 ==> {
            &&& final(frames)@ == old(frames)@
            &&& *final(current) == *old(current)
            &&& r == Some(VmError::TopLevelYield(old(current).ip))
        },
        old(frames)@.len() > 0 ==> {
            &&& r is None
            &&& final(frames)@ == old(frames)@.drop_last()
            &&& final(current).fun_id == old(frames)@.last().fun_id
            &&& final(current).ip == old(frames)@.last().ip
            &&& final(current).branch == old(frames)@.last().branch
            &&& final(current).dyn_call == old(frames)@.last().dyn_call
            &&& final(current).locals == old(frames)@.last().locals
            &&& final(current).ret is None
            &&& co_install(
                old(frames)@.last().coroutines@,
                final(current).coroutines@,
                Coroutine::Finished,
            )
        },
        crate::laws::machine_exclusive(old(frames)@, *old(current))
            ==> crate::laws::machine_exclusive(final(frames)@, *final(current)),
{
    match frames.pop() {
        None => Some(VmError::TopLevelYield(current.ip)),
        Some(caller) => {
            *current = caller;
            current.ret = None;
            install_coroutine(&mut current.coroutines, Coroutine::Finished);
            proof {
                if crate::laws::machine_exclusive(old(frames)@, *old(current)) {
                    crate::laws::lemma_exclusive_co_install(
                        old(frames)@,
                        *old(current),
                        frames@,
                        *current,
                        Coroutine::Finished,
                    );
                }
            }
            None
        },
    }
}

/// `CoResume(c)`: the current frame steps aside — pushed onto the stack with
/// slot `c` marked running and its pointer advanced past the resume — and the
/// suspended child becomes current.  Resuming a finished or still-running
/// slot is an error that leaves the machine as it was.
pub fn step_co_resume<T: Clone>(
    funs: &Vec<Fun<T>>,
    frames: &mut Vec<Frame<T>>,
    current: &mut Frame<T>,
    c: usize,
) -> (r: Option<VmError>)
    requires
        old(current).ip < usize::MAX,
    ensures
        c >= old(current).coroutines@.len() ==> {
            &&& *final(frames) == *old(frames)
            &&& *final(current) == *old(current)
            &&& (r matches Some(e) && e matches VmError::AccessMissingCoroutine(i, t) && i == c
                && trace_matches(t@, funs@, old(frames)@, *old(current)))
        },
        c < old(current).coroutines@.len() ==> match old(current).coroutines@[c as int] {
            Coroutine::Active(child) => {
                &&& r is None
                &&& final(frames)@.len() == old(frames)@.len() + 1
                &&& final(frames)@.drop_last() == old(frames)@
                &&& final(frames)@.last().fun_id == old(current).fun_id
                &&& final(frames)@.last().ip == old(current).ip + 1
                &&& final(frames)@.last().ret == old(current).ret
                &&& final(frames)@.last().branch == old(current).branch
                &&& final(frames)@.last().dyn_call == old(current).dyn_call
                &&& final(frames)@.last().locals == old(current).locals
                &&& final(frames)@.last().coroutines@ == old(current).coroutines@.update(
                    c as int,
                    Coroutine::<T>::Running,
                )
                &&& *final(current) == child
            },
            Coroutine::Finished => {
                &&& *final(frames) == *old(frames)
                &&& final(current).coroutines@ == old(current).coroutines@
                &&& final(current).fun_id == old(current).fun_id
                &&& final(current).ip == old(current).ip
                &&& final(current).ret == old(current).ret
                &&& final(current).branch == old(current).branch
                &&& final(current).dyn_call == old(current).dyn_call
                &&& final(current).locals == old(current).locals
                &&& (r matches Some(e) && e matches VmError::ResumeFinishedCoroutine(i, t) && i
                    == c && trace_matches(t@, funs@, old(frames)@, *final(current)))
            },
            Coroutine::Running => {
                &&& *final(frames) == *old(frames)
                &&& final(current).coroutines@ == old(current).coroutines@
                &&& final(current).fun_id == old(current).fun_id
                &&& final(current).ip == old(current).ip
                &&& final(current).ret == old(current).ret
                &&& final(current).branch == old(current).branch
                &&& final(current).dyn_call == old(current).dyn_call
                &&& final(current).locals == old(current).locals
                &&& (r matches Some(e) && e matches VmError::ResumeRunningCoroutine(i, t) && i == c
                    && trace_matches(t@, funs@, old(frames)@, *final(current)))
            },
        },
        crate::laws::machine_exclusive(old(frames)@, *old(current))
            ==> crate::laws::machine_exclusive(final(frames)@, *final(current)),
{
    if c >= current.coroutines.len() {
        return Some(VmError::AccessMissingCoroutine(c, build_trace(funs, frames, current)));
    }
    let ghost pre = current.coroutines@;
    let mut taken = Coroutine::Running;
    current.coroutines.set_and_swap(c, &mut taken);
    match taken {
        Coroutine::Active(child) => {
            current.ip = current.ip + 1;
            let mut resumed = child;
            core::mem::swap(current, &mut resumed);
            frames.push(resumed);
            proof {
                if crate::laws::machine_exclusive(old(frames)@, *old(current)) {
                    assert(frames@.drop_last() =~= old(frames)@);
                    crate::laws::lemma_exclusive_co_resume(
                        old(frames)@,
                        *old(current),
                        frames@,
                        *current,
                        c as int,
                    );
                }
            }
            None
        },
        Coroutine::Finished => {
            current.coroutines.set(c, Coroutine::Finished);
            proof {
                assert(current.coroutines@ =~= pre);
            }
            Some(VmError::ResumeFinishedCoroutine(c, build_trace(funs, frames, current)))
        },
        Coroutine::Running => {
            proof {
                assert(current.coroutines@ =~= pre);
            }
            Some(VmError::ResumeRunningCoroutine(c, build_trace(funs, frames, current)))
        },
    }
}

/// Stores what a generic operation handed back: a value overwrites the
/// frame's return slot, while no value leaves the frame — return slot
/// included — exactly as it was.
pub fn apply_gen_result<T>(current: &mut Frame<T>, r: Option<T>)
    ensures
        r is None ==> *final(current) == *old(current),
        r matches Some(v) ==> {
            &&& final(current).ret == Some(v)
            &&& final(current).fun_id == old(current).fun_id
            &&& final(current).ip == old(current).ip
            &&& final(current).branch == old(current).branch
            &&& final(current).dyn_call == old(current).dyn_call
            &&& final(current).locals == old(current).locals
            &&& final(current).coroutines == old(current).coroutines
        },
{
    match r {
        Some(v) => {
            current.ret = Some(v);
        },
        None => {},
    }
}

/// What is known of the current frame after a callback that received only
/// the frame's locals (or none of the frame at all, when `touch_locals` is
/// false): every other part of the frame is untouched, the return slot is
/// either kept or overwritten by the operation's returned value, and the
/// instruction pointer moves past the instruction exactly when the callback
/// succeeded.
pub open spec fn gen_frame_post<T>(
    pre: Frame<T>,
    post: Frame<T>,
    ok: bool,
    touch_locals: bool,
) -> bool {
    &&& post.fun_id == pre.fun_id
    &&& post.branch == pre.branch
    &&& post.dyn_call == pre.dyn_call
    &&& post.coroutines == pre.coroutines
    &&& !touch_locals ==> post.locals == pre.locals
    &&& ok ==> post.ip == pre.ip + 1 && (post.ret == pre.ret || post.ret is Some)
    &&& !ok ==> post.ip == pre.ip && post.ret == pre.ret
}

/// `Gen(op_index, params)`: dispatch to the host callback of the operation's
/// flavor, handing it exactly the state that flavor declares, then store its
/// result.  An unknown operation faults before anything runs; an error from
/// the callback is wrapped with the operation's name and a trace of the
/// machine as the callback left it.
pub fn step_gen<T: Clone, S, H: HostOp<T, S>>(
    funs: &Vec<Fun<T>>,
    ops: &Vec<GenOp<H>>,
    globals: &mut Vec<S>,
    frames: &mut Vec<Frame<T>>,
    current: &mut Frame<T>,
    op_index: usize,
    params: &[usize],
) -> (r: Option<VmError>)
    requires
        old(current).ip < usize::MAX,
    ensures
        op_index >= ops@.len() ==> {
            &&& *final(globals) == *old(globals)
            &&& *final(frames) == *old(frames)
            &&& *final(current) == *old(current)
            &&& (r matches Some(e) && e matches VmError::GenOpDoesNotExist(i, t) && i == op_index
                && trace_matches(t@, funs@, old(frames)@, *old(current)))
        },
        op_index < ops@.len() ==> {
            &&& (r matches Some(e) ==> (e matches VmError::GenOpError(n, _c, t) && n@
                == crate::data::gen_op_name(ops@[op_index as int])@ && trace_matches(
                t@,
                funs@,
                final(frames)@,
                *final(current),
            )))
            &&& (ops@[op_index as int] matches GenOp::Local { .. } ==> {
                &&& *final(globals) == *old(globals)
                &&& *final(frames) == *old(frames)
                &&& gen_frame_post(*old(current), *final(current), r is None, true)
            })
            &&& (ops@[op_index as int] matches GenOp::Global { .. } ==> {
                &&& *final(frames) == *old(frames)
                &&& gen_frame_post(*old(current), *final(current), r is None, false)
            })
            &&& (ops@[op_index as int] matches GenOp::Frame { .. } ==> {
                &&& *final(globals) == *old(globals)
                &&& *final(frames) == *old(frames)
            })
            &&& (ops@[op_index as int] matches GenOp::Local { .. } || ops@[op_index as int]
                matches GenOp::Global { .. }) && crate::laws::machine_exclusive(
                old(frames)@,
                *old(current),
            ) ==> crate::laws::machine_exclusive(final(frames)@, *final(current))
        },
{
    if op_index >= ops.len() {
        return Some(VmError::GenOpDoesNotExist(op_index, build_trace(funs, frames, current)));
    }
    let res: Result<Option<T>, String> = match &ops[op_index] {
        GenOp::Vm { op, .. } => op.call_vm(
            VmEnv { globals: &mut *globals, frames: &mut *frames, current: &mut *current },
            params,
        ),
        GenOp::Global { op, .. } => op.call_global(&mut *globals, params),
        GenOp::Local { op, .. } => op.call_local(&mut current.locals, params),
        GenOp::Frame { op, .. } => op.call_frame(&mut *current, params),
    };
    match res {
        Result::Ok(maybe) => {
            apply_gen_result(current, maybe);
            if current.ip < usize::MAX {
                current.ip = current.ip + 1;
            }
            None
        },
        Result::Err(cause) => {
            let name = match &ops[op_index] {
                GenOp::Vm { name, .. } => name.clone(),
                GenOp::Global { name, .. } => name.clone(),
                GenOp::Local { name, .. } => name.clone(),
                GenOp::Frame { name, .. } => name.clone(),
            };
            Some(VmError::GenOpError(name, cause, build_trace(funs, frames, current)))
        },
    }
}

} // verus!
