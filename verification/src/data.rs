use vstd::prelude::*;

verus! {

/// A bytecode instruction.  All indices are zero-based; local and coroutine
/// indices always refer to the frame the instruction executes in.
pub enum Op<T> {
    /// Invoke generic operation `0` with the parameter list `1`; a value it
    /// returns is stored in the frame's return slot.
    Gen(usize, Vec<usize>),
    /// Push a new frame for function `0`, its locals copied from the current
    /// locals addressed by `1`, in that order.
    Call(usize, Vec<usize>),
    /// Pop the frame, moving local `0` into the caller's return slot; with no
    /// caller the machine terminates yielding that value.
    ReturnLocal(usize),
    /// Pop the frame, emptying the caller's return slot; with no caller the
    /// machine terminates yielding no value.
    Return,
    /// Jump to `0` iff the branch flag is set; the flag itself is untouched.
    Branch(usize),
    /// As `Call`, with the callee taken from the dynamic-call register.
    DynCall(Vec<usize>),
    /// Remove local `0`, shifting the locals above it down.
    Drop(usize),
    /// Append a copy of local `0`.
    Dup(usize),
    /// Exchange locals `0` and `1`.
    Swap(usize, usize),
    /// Move the return-slot value onto the end of the locals.
    PushRet,
    /// Append a copy of the immediate value to the locals.
    PushLocal(T),
    /// Suspend the frame as a coroutine of its caller, carrying local `0` as
    /// the yielded value.
    CoYield(usize),
    /// Terminate the frame, leaving a finished coroutine in the caller.
    CoFinish,
    /// Become coroutine `0` of the current frame, which is pushed back onto
    /// the stack.
    CoResume(usize),
    /// Set the branch flag iff coroutine `0` is finished; if so, also destroy
    /// that coroutine.
    CoFinishSetBranch(usize),
    /// Remove coroutine `0`.
    CoDrop(usize),
    /// Append a copy of coroutine `0`.
    CoDup(usize),
    /// Exchange coroutines `0` and `1`.
    CoSwap(usize, usize),
}

/// A named function: an ordered list of instructions indexed by the
/// instruction pointer.  The name appears verbatim in stack traces.
pub struct Fun<T> {
    pub name: String,
    pub instrs: Vec<Op<T>>,
}

/// One invocation record: which function runs, where it stands in it, its
/// single-value return slot, sticky branch flag, dynamic-call register,
/// locals, and the coroutines it owns.
pub struct Frame<T> {
    pub fun_id: usize,
    pub ip: usize,
    pub ret: Option<T>,
    pub branch: bool,
    pub dyn_call: Option<usize>,
    pub locals: Vec<T>,
    pub coroutines: Vec<Coroutine<T>>,
}

/// A coroutine owned by a frame: a suspended child frame, the transient mark
/// of the child currently running above its parent, or a finished child ready
/// to be observed and destroyed.
pub enum Coroutine<T> {
    Active(Frame<T>),
    Running,
    Finished,
}

impl<T> Coroutine<T> {
    /// True iff this slot marks the child currently running above the owner.
    pub fn is_running(&self) -> (r: bool)
        ensures
            r == (self is Running),
    {
        match self {
            Coroutine::Running => true,
            _ => false,
        }
    }

    /// True until the coroutine has finished.
    pub fn is_alive(&self) -> (r: bool)
        ensures
            r == !(self is Finished),
    {
        match self {
            Coroutine::Finished => false,
            _ => true,
        }
    }
}

/// The whole-machine state handed to a host callback of the `Vm` flavor.
pub struct VmEnv<'a, T, S> {
    pub globals: &'a mut Vec<S>,
    pub frames: &'a mut Vec<Frame<T>>,
    pub current: &'a mut Frame<T>,
}

/// A host's generic operations, one method per flavor; an operation record
/// tags which method the machine calls for it.  Each method receives exactly
/// the state its flavor declares and returns either a value for the frame's
/// return slot, nothing, or an error that aborts the run.
pub trait HostOp<T, S> {
    fn call_vm(&self, env: VmEnv<'_, T, S>, params: &[usize]) -> Result<Option<T>, String> {
        Ok(None)
    }

    fn call_global(&self, globals: &mut Vec<S>, params: &[usize]) -> Result<Option<T>, String> {
        Ok(None)
    }

    fn call_local(&self, locals: &mut Vec<T>, params: &[usize]) -> Result<Option<T>, String> {
        Ok(None)
    }

    fn call_frame(&self, frame: &mut Frame<T>, params: &[usize]) -> Result<Option<T>, String> {
        Ok(None)
    }
}

/// A generic-operation record: a display name for traces, the callback value,
/// and — through the variant — the flavor of state the callback receives.
pub enum GenOp<H> {
    Vm { name: String, op: H },
    Global { name: String, op: H },
    Local { name: String, op: H },
    Frame { name: String, op: H },
}

/// The display name of a generic-operation record.
pub open spec fn gen_op_name<H>(g: GenOp<H>) -> String {
    match g {
        GenOp::Vm { name, .. } => name,
        GenOp::Global { name, .. } => name,
        GenOp::Local { name, .. } => name,
        GenOp::Frame { name, .. } => name,
    }
}

/// `b` is a structural copy of `a`: every field that is not a host value is
/// equal, and every host value in `b` is a clone of its counterpart in `a`.
pub open spec fn frame_similar<T: Clone>(a: Frame<T>, b: Frame<T>) -> bool
    decreases a,
{
    &&& b.fun_id == a.fun_id
    &&& b.ip == a.ip
    &&& match (a.ret, b.ret) {
        (Option::None, Option::None) => true,
        (Option::Some(x), Option::Some(y)) => cloned::<T>(x, y),
        _ => false,
    }
    &&& b.branch == a.branch
    &&& b.dyn_call == a.dyn_call
    &&& b.locals@.len() == a.locals@.len()
    &&& forall|i: int|
        0 <= i < a.locals@.len() ==> cloned::<T>(#[trigger] a.locals@[i], b.locals@[i])
    &&& b.coroutines@.len() == a.coroutines@.len()
    &&& forall|i: int|
        0 <= i < a.coroutines@.len() ==> co_similar(
            #[trigger] a.coroutines@[i],
            b.coroutines@[i],
        )
}

/// `b` is a structural copy of coroutine `a` (see [`frame_similar`]).
pub open spec fn co_similar<T: Clone>(a: Coroutine<T>, b: Coroutine<T>) -> bool
    decreases a,
{
    match (a, b) {
        (Coroutine::Active(fa), Coroutine::Active(fb)) => frame_similar(fa, fb),
        (Coroutine::Running, Coroutine::Running) => true,
        (Coroutine::Finished, Coroutine::Finished) => true,
        _ => false,
    }
}

impl<T: Clone> Clone for Frame<T> {
    /// A deep copy: every structural field is kept, every host value cloned.
    fn clone(&self) -> (r: Self)
        ensures
            frame_similar(*self, r),
        decreases *self,
    {
        let mut coroutines: Vec<Coroutine<T>> = Vec::new();
        let mut k: usize = 0;
        while k < self.coroutines.len()
            invariant
                0 <= k <= self.coroutines@.len(),
                coroutines@.len() == k,
                forall|i: int|
                    0 <= i < k ==> co_similar(self.coroutines@[i], #[trigger] coroutines@[i]),
            decreases self.coroutines@.len() - k,
        {
            coroutines.push(self.coroutines[k].clone());
            k = k + 1;
        }
        Frame {
            fun_id: self.fun_id,
            ip: self.ip,
            ret: self.ret.clone(),
            branch: self.branch,
            dyn_call: self.dyn_call,
            locals: self.locals.clone(),
            coroutines,
        }
    }
}

impl<T: Clone> Clone for Coroutine<T> {
    /// A deep copy, cloning the suspended frame of an active coroutine.
    fn clone(&self) -> (r: Self)
        ensures
            co_similar(*self, r),
        decreases *self,
    {
        match self {
            Coroutine::Active(f) => Coroutine::Active(f.clone()),
            Coroutine::Running => Coroutine::Running,
            Coroutine::Finished => Coroutine::Finished,
        }
    }
}

} // verus!
