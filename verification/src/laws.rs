//! Laws of the instruction set that relate several steps or constrain every
//! state, stated over the same sequences the step contracts speak of.
use vstd::prelude::*;
use crate::data::{co_similar, Coroutine, Frame, Fun, GenOp, Op};
use crate::semantics::{fetched, steps_to};
use crate::step::{co_install, is_first_running, no_running};

verus! {

/// The locals after `Swap(a, b)`: positions `a` and `b` exchanged.
pub open spec fn swapped_at<A>(s: Seq<A>, a: int, b: int) -> Seq<A> {
    s.update(a, s[b]).update(b, s[a])
}

/// `Swap(a, b); Swap(a, b)` leaves the locals as they were, and likewise
/// `CoSwap(a, b); CoSwap(a, b)` the coroutine list.
pub proof fn lemma_swap_swap_roundtrip<A>(s: Seq<A>, a: int, b: int)
    requires
        0 <= a < s.len(),
        0 <= b < s.len(),
    ensures
        swapped_at(swapped_at(s, a, b), a, b) == s,
{
    assert(swapped_at(swapped_at(s, a, b), a, b) =~= s);
}

/// `Dup(i); Drop(n)` with `n` the index of the just-pushed duplicate leaves
/// the locals as they were, whatever value the duplication produced.
pub proof fn lemma_dup_drop_roundtrip<A>(locals: Seq<A>, duplicate: A)
    ensures
        locals.push(duplicate).remove(locals.len() as int) == locals,
{
    assert(locals.push(duplicate).remove(locals.len() as int) =~= locals);
}

/// `CoDup(c); CoDrop(n)` with `n` the index of the just-appended copy leaves
/// the coroutine list as it was, whatever the copy looked like.
pub proof fn lemma_co_dup_co_drop_roundtrip<T>(cos: Seq<Coroutine<T>>, copy: Coroutine<T>)
    ensures
        cos.push(copy).remove(cos.len() as int) == cos,
{
    assert(cos.push(copy).remove(cos.len() as int) =~= cos);
}

/// A coroutine with no running mark anywhere inside it: a suspended child is
/// clean all the way down, a finished child is clean, a running mark is not.
pub open spec fn co_clean<T>(c: Coroutine<T>) -> bool
    decreases c,
{
    match c {
        Coroutine::Active(f) => frame_clean(f),
        Coroutine::Running => false,
        Coroutine::Finished => true,
    }
}

/// A frame with no running mark anywhere in its coroutines.
pub open spec fn frame_clean<T>(f: Frame<T>) -> bool
    decreases f,
{
    forall|i: int| 0 <= i < f.coroutines@.len() ==> co_clean(#[trigger] f.coroutines@[i])
}

/// No two distinct slots of the list are marked running.
pub open spec fn at_most_one_running<T>(cos: Seq<Coroutine<T>>) -> bool {
    forall|i: int, j: int|
        0 <= i < cos.len() && 0 <= j < cos.len() && (#[trigger] cos[i]) is Running
            && (#[trigger] cos[j]) is Running ==> i == j
}

/// A frame waiting on the stack: at most one slot marks the child running
/// above it, and every slot that is not that mark is clean.
pub open spec fn stacked_frame_ok<T>(f: Frame<T>) -> bool {
    &&& at_most_one_running(f.coroutines@)
    &&& forall|i: int|
        0 <= i < f.coroutines@.len() && !((#[trigger] f.coroutines@[i]) is Running) ==> co_clean(
            f.coroutines@[i],
        )
}

/// Coroutine exclusivity: in every frame of the machine at most one
/// coroutine is marked running, and a running mark appears only in frames
/// that sit on the stack — below the child that the mark stands for — never
/// in the current frame or inside a suspended one.
pub open spec fn machine_exclusive<T>(frames: Seq<Frame<T>>, current: Frame<T>) -> bool {
    &&& frame_clean(current)
    &&& forall|k: int| 0 <= k < frames.len() ==> stacked_frame_ok(#[trigger] frames[k])
}

/// A structural copy of a clean coroutine is clean: duplicating a coroutine
/// cannot mint a running mark.
pub proof fn lemma_co_similar_preserves_clean<T: Clone>(a: Coroutine<T>, b: Coroutine<T>)
    requires
        co_similar(a, b),
        co_clean(a),
    ensures
        co_clean(b),
    decreases a,
{
    match (a, b) {
        (Coroutine::Active(fa), Coroutine::Active(fb)) => {
            assert forall|i: int| 0 <= i < fb.coroutines@.len() implies co_clean(
                #[trigger] fb.coroutines@[i],
            ) by {
                lemma_co_similar_preserves_clean(fa.coroutines@[i], fb.coroutines@[i]);
            }
        },
        _ => {},
    }
}

/// Exclusivity is preserved by a call: the caller goes onto the stack
/// carrying no running mark at all, and the callee starts with no
/// coroutines.
pub proof fn lemma_exclusive_call<T>(
    pre_frames: Seq<Frame<T>>,
    pre_current: Frame<T>,
    post_frames: Seq<Frame<T>>,
    post_current: Frame<T>,
    pushed: Frame<T>,
)
    requires
        machine_exclusive(pre_frames, pre_current),
        pushed.coroutines@ == pre_current.coroutines@,
        post_frames == pre_frames.push(pushed),
        post_current.coroutines@.len() == 0,
    ensures
        machine_exclusive(post_frames, post_current),
{
    assert forall|k: int| 0 <= k < post_frames.len() implies stacked_frame_ok(
        #[trigger] post_frames[k],
    ) by {
        if k < pre_frames.len() {
            assert(post_frames[k] == pre_frames[k]);
        } else {
            assert(post_frames[k] == pushed);
        }
    }
}

/// Exclusivity is preserved by `Return` and `ReturnLocal` provided the frame
/// returned into holds no running mark — that is, the returning frame was
/// entered by a call.  A coroutine entered by a resume that leaves through a
/// plain return instead of a yield makes this hypothesis false: the parent
/// keeps a stale running mark, which is exactly the state the resume of a
/// still-running slot reports as an error.
pub proof fn lemma_exclusive_return<T>(
    pre_frames: Seq<Frame<T>>,
    pre_current: Frame<T>,
    post_frames: Seq<Frame<T>>,
    post_current: Frame<T>,
)
    requires
        machine_exclusive(pre_frames, pre_current),
        pre_frames.len() > 0,
        no_running(pre_frames.last().coroutines@),
        post_frames == pre_frames.drop_last(),
        post_current.coroutines@ == pre_frames.last().coroutines@,
    ensures
        machine_exclusive(post_frames, post_current),
{
    assert forall|i: int| 0 <= i < post_current.coroutines@.len() implies co_clean(
        #[trigger] post_current.coroutines@[i],
    ) by {
        assert(stacked_frame_ok(pre_frames.last()));
    }
    assert forall|k: int| 0 <= k < post_frames.len() implies stacked_frame_ok(
        #[trigger] post_frames[k],
    ) by {
        assert(post_frames[k] == pre_frames[k]);
    }
}

/// Exclusivity is preserved when a child yields or finishes: the suspended
/// or finished coroutine — itself clean — replaces the one running mark of
/// the parent the machine returns to, or is appended when the parent holds
/// no mark, so the parent becomes the current frame with no mark left.
pub proof fn lemma_exclusive_co_install<T>(
    pre_frames: Seq<Frame<T>>,
    pre_current: Frame<T>,
    post_frames: Seq<Frame<T>>,
    post_current: Frame<T>,
    installed: Coroutine<T>,
)
    requires
        machine_exclusive(pre_frames, pre_current),
        pre_frames.len() > 0,
        co_clean(installed),
        post_frames == pre_frames.drop_last(),
        co_install(pre_frames.last().coroutines@, post_current.coroutines@, installed),
    ensures
        machine_exclusive(post_frames, post_current),
{
    let parent = pre_frames.last().coroutines@;
    assert(stacked_frame_ok(pre_frames.last()));
    if no_running(parent) {
        assert forall|i: int| 0 <= i < post_current.coroutines@.len() implies co_clean(
            #[trigger] post_current.coroutines@[i],
        ) by {
            if i < parent.len() {
                assert(post_current.coroutines@[i] == parent[i]);
            }
        }
    } else {
        let j = choose|j: int| 0 <= j < parent.len() && (#[trigger] parent[j]) is Running;
        let j0 = first_running_index(parent, j);
        assert(is_first_running(parent, j0));
        assert(post_current.coroutines@ == parent.update(j0, installed));
        assert forall|i: int| 0 <= i < post_current.coroutines@.len() implies co_clean(
            #[trigger] post_current.coroutines@[i],
        ) by {
            if i != j0 {
                assert(post_current.coroutines@[i] == parent[i]);
                assert(!(parent[i] is Running));
            }
        }
    }
    assert forall|k: int| 0 <= k < post_frames.len() implies stacked_frame_ok(
        #[trigger] post_frames[k],
    ) by {
        assert(post_frames[k] == pre_frames[k]);
    }
}

/// The position of the first running mark at or before a known one.
proof fn first_running_index<T>(cos: Seq<Coroutine<T>>, j: int) -> (r: int)
    requires
        0 <= j < cos.len(),
        cos[j] is Running,
    ensures
        is_first_running(cos, r),
    decreases j,
{
    if exists|i: int| 0 <= i < j && (#[trigger] cos[i]) is Running {
        let i = choose|i: int| 0 <= i < j && (#[trigger] cos[i]) is Running;
        first_running_index(cos, i)
    } else {
        j
    }
}

/// Exclusivity is preserved by resuming a suspended coroutine: the parent
/// goes onto the stack with exactly one running mark — the slot just
/// resumed — and the child, clean because it was suspended inside a clean
/// frame, becomes current.
pub proof fn lemma_exclusive_co_resume<T>(
    pre_frames: Seq<Frame<T>>,
    pre_current: Frame<T>,
    post_frames: Seq<Frame<T>>,
    post_current: Frame<T>,
    c: int,
)
    requires
        machine_exclusive(pre_frames, pre_current),
        0 <= c < pre_current.coroutines@.len(),
        pre_current.coroutines@[c] == Coroutine::Active(post_current),
        post_frames.len() == pre_frames.len() + 1,
        post_frames.drop_last() == pre_frames,
        post_frames.last().coroutines@ == pre_current.coroutines@.update(
            c,
            Coroutine::<T>::Running,
        ),
    ensures
        machine_exclusive(post_frames, post_current),
{
    assert(co_clean(pre_current.coroutines@[c]));
    assert(stacked_frame_ok(post_frames.last())) by {
        let cos = post_frames.last().coroutines@;
        assert forall|i: int|
            0 <= i < cos.len() && !((#[trigger] cos[i]) is Running) implies co_clean(cos[i]) by {
            assert(cos[i] == pre_current.coroutines@[i]);
        }
    }
    assert forall|k: int| 0 <= k < post_frames.len() implies stacked_frame_ok(
        #[trigger] post_frames[k],
    ) by {
        if k < pre_frames.len() {
            assert(post_frames[k] == pre_frames[k]);
        }
    }
}

/// A step that keeps the coroutine discipline observable: its generic
/// operation, if any, is of the locals-only or globals-only flavor, and no
/// frame is returned into while it still holds a running mark — that is, no
/// resumed coroutine leaves by a plain return instead of a yield.
pub open spec fn orderly_step<T: Clone, H>(
    funs: Seq<Fun<T>>,
    ops: Seq<GenOp<H>>,
    f1: Seq<Frame<T>>,
    c1: Frame<T>,
    f2: Seq<Frame<T>>,
    c2: Frame<T>,
) -> bool {
    &&& steps_to(funs, ops, f1, c1, f2, c2)
    &&& match fetched(funs, c1) {
        Op::Gen(op_index, _params) => (ops[op_index as int] matches GenOp::Local { .. }
            || ops[op_index as int] matches GenOp::Global { .. }),
        Op::Return => no_running(f1.last().coroutines@),
        Op::ReturnLocal(_slot) => no_running(f1.last().coroutines@),
        _ => true,
    }
}

/// The second configuration is reachable from the first in exactly `n`
/// orderly steps.
pub open spec fn orderly_steps_n<T: Clone, H>(
    funs: Seq<Fun<T>>,
    ops: Seq<GenOp<H>>,
    f1: Seq<Frame<T>>,
    c1: Frame<T>,
    f2: Seq<Frame<T>>,
    c2: Frame<T>,
    n: nat,
) -> bool
    decreases n,
{
    if n == 0 {
        f2 == f1 && c2 == c1
    } else {
        exists|fm: Seq<Frame<T>>, cm: Frame<T>|
            #[trigger] orderly_step(funs, ops, f1, c1, fm, cm) && orderly_steps_n(
                funs,
                ops,
                fm,
                cm,
                f2,
                c2,
                (n - 1) as nat,
            )
    }
}

/// One orderly step preserves coroutine exclusivity.
pub proof fn lemma_orderly_step_exclusive<T: Clone, H>(
    funs: Seq<Fun<T>>,
    ops: Seq<GenOp<H>>,
    f1: Seq<Frame<T>>,
    c1: Frame<T>,
    f2: Seq<Frame<T>>,
    c2: Frame<T>,
)
    requires
        machine_exclusive(f1, c1),
        orderly_step(funs, ops, f1, c1, f2, c2),
    ensures
        machine_exclusive(f2, c2),
{
    match fetched(funs, c1) {
        Op::Call(_fun_index, _params) => {
            lemma_exclusive_call(
                f1,
                c1,
                f2,
                c2,
                (Frame { ip: ((c1.ip + 1) as usize), ..c1 }),
            );
        },
        Op::DynCall(_params) => {
            lemma_exclusive_call(
                f1,
                c1,
                f2,
                c2,
                (Frame { ip: ((c1.ip + 1) as usize), ..c1 }),
            );
        },
        Op::Return => {
            lemma_exclusive_return(f1, c1, f2, c2);
        },
        Op::ReturnLocal(_slot) => {
            lemma_exclusive_return(f1, c1, f2, c2);
        },
        Op::CoYield(_slot) => {
            lemma_exclusive_co_install(
                f1,
                c1,
                f2,
                c2,
                Coroutine::Active((Frame { ip: ((c1.ip + 1) as usize), ..c1 })),
            );
        },
        Op::CoFinish => {
            lemma_exclusive_co_install(f1, c1, f2, c2, Coroutine::Finished);
        },
        Op::CoResume(c) => {
            lemma_exclusive_co_resume(f1, c1, f2, c2, c as int);
        },
        Op::CoDup(c) => {
            lemma_co_similar_preserves_clean(
                c1.coroutines@[c as int],
                c2.coroutines@.last(),
            );
            assert forall|i: int| 0 <= i < c2.coroutines@.len() implies co_clean(
                #[trigger] c2.coroutines@[i],
            ) by {
                if i < c1.coroutines@.len() {
                    assert(c2.coroutines@[i] == c1.coroutines@[i]);
                }
            }
        },
        _ => {},
    }
}

/// Coroutine exclusivity, end to end: an execution all of whose steps are
/// orderly carries the invariant from its first configuration to its last —
/// so a whole run of a program whose generic operations touch at most the
/// locals or the globals, and whose resumed coroutines always leave by a
/// yield or a finish, keeps at most one running mark per frame, always in a
/// stacked frame, at every configuration it reaches.
pub proof fn lemma_orderly_run_exclusive<T: Clone, H>(
    funs: Seq<Fun<T>>,
    ops: Seq<GenOp<H>>,
    f0: Seq<Frame<T>>,
    c0: Frame<T>,
    f1: Seq<Frame<T>>,
    c1: Frame<T>,
    n: nat,
)
    requires
        machine_exclusive(f0, c0),
        orderly_steps_n(funs, ops, f0, c0, f1, c1, n),
    ensures
        machine_exclusive(f1, c1),
    decreases n,
{
    if n > 0 {
        let (fm, cm) = choose|fm: Seq<Frame<T>>, cm: Frame<T>|
            #[trigger] orderly_step(funs, ops, f0, c0, fm, cm) && orderly_steps_n(
                funs,
                ops,
                fm,
                cm,
                f1,
                c1,
                (n - 1) as nat,
            );
        lemma_orderly_step_exclusive(funs, ops, f0, c0, fm, cm);
        lemma_orderly_run_exclusive(funs, ops, fm, cm, f1, c1, (n - 1) as nat);
    }
}

} // verus!


