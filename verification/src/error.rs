use vstd::prelude::*;
use crate::data::{Frame, Fun};

verus! {

/// One entry per frame on the call stack, bottom first: the function's display
/// name and the instruction index at which that frame stands.  For every frame
/// below the top the index points at the call site; the last entry points at
/// the faulting instruction itself.
pub type StackTrace = Vec<(String, usize)>;

/// The closed set of faults.  Every fault except `TopLevelYield` (which can
/// only arise in the entry frame) carries a stack trace of the whole frame
/// stack at fault time.
#[derive(Debug)]
pub enum VmError {
    /// A call, a dynamic call or the entry id named an unknown function.
    FunDoesNotExist(usize, StackTrace),
    /// A dynamic call ran while the frame's dynamic-call register was empty.
    DynFunDoesNotExist(StackTrace),
    /// The instruction pointer ran past the end of the current function.
    InstrPointerOutOfRange(usize, StackTrace),
    /// A generic-operation instruction named an unknown operation.
    GenOpDoesNotExist(usize, StackTrace),
    /// A host callback returned an error: the operation's name, the cause.
    GenOpError(String, String, StackTrace),
    /// The return slot was read while empty.
    AccessMissingReturn(StackTrace),
    /// A local index was out of range for the frame it applies to.
    AccessMissingLocal(usize, StackTrace),
    /// A coroutine index was out of range for the current frame.
    AccessMissingCoroutine(usize, StackTrace),
    /// A resume named a coroutine already observed to be finished.
    ResumeFinishedCoroutine(usize, StackTrace),
    /// A resume named a coroutine slot still marked running; this arises when
    /// a resumed coroutine leaves by a plain return instead of yielding.
    ResumeRunningCoroutine(usize, StackTrace),
    /// The entry frame tried to yield or finish as a coroutine; carries the
    /// instruction pointer at which it did.
    TopLevelYield(usize),
    /// The interpreter's step budget ran out before the program terminated.
    StepLimitReached(StackTrace),
}

/// The display name that a stack-trace entry shows for function `id`: the
/// function's own name, or nothing when the id is unknown.
pub open spec fn name_chars<T>(funs: Seq<Fun<T>>, id: int) -> Seq<char> {
    if 0 <= id < funs.len() {
        funs[id].name@
    } else {
        Seq::<char>::empty()
    }
}

/// The instruction index shown for a frame that sits below the top of the
/// stack: its instruction pointer was already advanced past the call that
/// pushed the frame above it, so step one back to point at the call site.
pub open spec fn call_site(ip: usize) -> int {
    if ip > 0 {
        ip - 1
    } else {
        0
    }
}

/// Trace faithfulness: a trace `t` describes the stack `frames` with current
/// frame `current` exactly when it has one entry per frame, bottom first, each
/// naming the frame's function, every entry below the top pointing at its call
/// site, and the last entry pointing at the faulting instruction of the
/// current frame.
pub open spec fn trace_matches<T>(
    t: Seq<(String, usize)>,
    funs: Seq<Fun<T>>,
    frames: Seq<Frame<T>>,
    current: Frame<T>,
) -> bool {
    &&& t.len() == frames.len() + 1
    &&& forall|i: int|
        0 <= i < frames.len() ==> {
            &&& (#[trigger] t[i]).0@ == name_chars(funs, frames[i].fun_id as int)
            &&& t[i].1 == call_site(frames[i].ip)
        }
    &&& t[frames.len() as int].0@ == name_chars(funs, current.fun_id as int)
    &&& t[frames.len() as int].1 == current.ip
}

/// Trace faithfulness for a whole fault: every error that carries a stack
/// trace carries one that describes the machine at fault time — one entry per
/// frame, the last entry pointing at the faulting instruction — while a
/// top-level yield, which carries only the faulting instruction pointer, can
/// arise only in the entry frame with nothing stacked beneath it.
pub open spec fn error_trace_ok<T>(
    e: VmError,
    funs: Seq<Fun<T>>,
    frames: Seq<Frame<T>>,
    current: Frame<T>,
) -> bool {
    match e {
        VmError::FunDoesNotExist(_id, t) => trace_matches(t@, funs, frames, current),
        VmError::DynFunDoesNotExist(t) => trace_matches(t@, funs, frames, current),
        VmError::InstrPointerOutOfRange(_ip, t) => trace_matches(t@, funs, frames, current),
        VmError::GenOpDoesNotExist(_id, t) => trace_matches(t@, funs, frames, current),
        VmError::GenOpError(_name, _cause, t) => trace_matches(t@, funs, frames, current),
        VmError::AccessMissingReturn(t) => trace_matches(t@, funs, frames, current),
        VmError::AccessMissingLocal(_i, t) => trace_matches(t@, funs, frames, current),
        VmError::AccessMissingCoroutine(_i, t) => trace_matches(t@, funs, frames, current),
        VmError::ResumeFinishedCoroutine(_i, t) => trace_matches(t@, funs, frames, current),
        VmError::ResumeRunningCoroutine(_i, t) => trace_matches(t@, funs, frames, current),
        VmError::TopLevelYield(pc) => pc == current.ip && frames.len() == 0,
        VmError::StepLimitReached(t) => trace_matches(t@, funs, frames, current),
    }
}

/// The display name shown for function `id`, cloned out of the table; a
/// function id that is not in the table (possible only for a corrupted frame)
/// shows as an empty name rather than stopping trace construction.
fn lookup_name<T>(funs: &Vec<Fun<T>>, id: usize) -> (r: String)
    ensures
        r@ == name_chars(funs@, id as int),
{
    if id < funs.len() {
        funs[id].name.clone()
    } else {
        String::new()
    }
}

/// Builds the stack trace for a fault observed in `current` while `frames`
/// are suspended beneath it.
pub fn build_trace<T>(funs: &Vec<Fun<T>>, frames: &Vec<Frame<T>>, current: &Frame<T>) -> (t:
    StackTrace)
    ensures
        trace_matches(t@, funs@, frames@, *current),
{
    let mut t: StackTrace = Vec::new();
    let mut k: usize = 0;
    while k < frames.len()
        invariant
            0 <= k <= frames@.len(),
            t@.len() == k,
            forall|i: int|
                0 <= i < k ==> {
                    &&& (#[trigger] t@[i]).0@ == name_chars(funs@, frames@[i].fun_id as int)
                    &&& t@[i].1 == call_site(frames@[i].ip)
                },
        decreases frames@.len() - k,
    {
        let fr = &frames[k];
        let name = lookup_name(funs, fr.fun_id);
        let at: usize = if fr.ip > 0 {
            fr.ip - 1
        } else {
            0
        };
        t.push((name, at));
        k = k + 1;
    }
    let name = lookup_name(funs, current.fun_id);
    t.push((name, current.ip));
    t
}

} // verus!
