use an_a_vm::data::{Frame, Fun, GenOp, HostOp, Op, VmEnv};
use an_a_vm::Vm;

enum Host {
    PushGlobal,
    Add,
    Mul,
    SetDynCall,
    SetBranch,
    SetBranchOnFinish,
    UnsetBranchOnEqual,
    CoCount,
}

impl HostOp<usize, usize> for Host {
    fn call_vm(
        &self,
        env: VmEnv<'_, usize, usize>,
        params: &[usize],
    ) -> Result<Option<usize>, String> {
        match self {
            Host::PushGlobal => {
                if let [s] = params {
                    let v: usize = env.globals[*s];
                    env.current.locals.push(v);
                }
                Ok(None)
            }
            _ => Ok(None),
        }
    }

    fn call_local(
        &self,
        locals: &mut Vec<usize>,
        params: &[usize],
    ) -> Result<Option<usize>, String> {
        match self {
            Host::Add => {
                if let [s1, s2] = params {
                    Ok(Some(locals[*s1] + locals[*s2]))
                } else {
                    Ok(None)
                }
            }
            Host::Mul => {
                if let [s1, s2] = params {
                    Ok(Some(locals[*s1] * locals[*s2]))
                } else {
                    Ok(None)
                }
            }
            _ => Ok(None),
        }
    }

    fn call_frame(
        &self,
        frame: &mut Frame<usize>,
        params: &[usize],
    ) -> Result<Option<usize>, String> {
        match self {
            Host::SetDynCall => {
                if let [s] = params {
                    let v: usize = frame.locals[*s];
                    frame.dyn_call = Some(v);
                }
                Ok(None)
            }
            Host::SetBranch => {
                frame.branch = true;
                Ok(None)
            }
            Host::SetBranchOnFinish => {
                frame.branch = !frame.coroutines[params[0]].is_alive();
                Ok(None)
            }
            Host::UnsetBranchOnEqual => {
                if let [s1, s2] = params {
                    frame.branch = frame.locals[*s1] != frame.locals[*s2];
                }
                Ok(None)
            }
            Host::CoCount => Ok(Some(frame.coroutines.len())),
            _ => Ok(None),
        }
    }
}

fn gen_push_global() -> GenOp<Host> {
    GenOp::Vm { name: "push global".into(), op: Host::PushGlobal }
}

fn gen_add() -> GenOp<Host> {
    GenOp::Local { name: "add".into(), op: Host::Add }
}

fn gen_mul() -> GenOp<Host> {
    GenOp::Local { name: "mul".into(), op: Host::Mul }
}

fn gen_set_branch() -> GenOp<Host> {
    GenOp::Frame { name: "set".into(), op: Host::SetBranch }
}

fn gen_set_branch_on_finish() -> GenOp<Host> {
    GenOp::Frame { name: "set_branch_on_finish".into(), op: Host::SetBranchOnFinish }
}

#[test]
fn should_yield() {
    let push_from_global = gen_push_global();

    let co = Fun {
        name: "co".into(),
        instrs: vec![Op::Gen(0, vec![0]), Op::CoYield(0), Op::CoFinish],
    };

    let main = Fun {
        name: "main".into(),
        instrs: vec![Op::Call(1, vec![]), Op::PushRet, Op::ReturnLocal(0)],
    };

    let mut vm: Vm<usize, usize, Host> = Vm::new(vec![main, co], vec![push_from_global]);

    vm.with_globals(vec![3]);

    let data: usize = vm.run(0).unwrap().unwrap();

    assert_eq!(data, 3);
}

#[test]
fn should_resume() {
    let push_from_global = gen_push_global();
    let add = gen_add();

    let co = Fun {
        name: "co".into(),
        instrs: vec![
            Op::Gen(0, vec![0]),
            Op::Gen(1, vec![0, 0]),
            Op::PushRet,
            Op::CoYield(0),
            Op::Gen(0, vec![0]),
            Op::Gen(1, vec![1, 2]),
            Op::PushRet,
            Op::CoYield(3),
            Op::CoFinish,
        ],
    };

    let main = Fun {
        name: "main".into(),
        instrs: vec![
            Op::Call(1, vec![]),
            Op::PushRet,
            Op::CoResume(0),
            Op::PushRet,
            Op::Gen(1, vec![0, 1]),
            Op::PushRet,
            Op::ReturnLocal(2),
        ],
    };

    let mut vm: Vm<usize, usize, Host> = Vm::new(vec![main, co], vec![push_from_global, add]);

    vm.with_globals(vec![3]);

    let data: usize = vm.run(0).unwrap().unwrap();

    assert_eq!(data, 12);
}

#[test]
fn should_handle_params() {
    let push_from_global = gen_push_global();
    let add = gen_add();
    let mul = gen_mul();

    let co = Fun {
        name: "co".into(),
        instrs: vec![
            Op::Gen(1, vec![0, 1]),
            Op::PushRet,
            Op::CoYield(3),
            Op::Gen(2, vec![3, 2]),
            Op::PushRet,
            Op::CoYield(4),
            Op::CoFinish,
        ],
    };

    let main = Fun {
        name: "main".into(),
        instrs: vec![
            Op::Gen(0, vec![0]),
            Op::Gen(0, vec![1]),
            Op::Gen(0, vec![2]),
            Op::Call(1, vec![0, 1, 2]),
            Op::Drop(0),
            Op::Drop(0),
            Op::Drop(0),
            Op::PushRet,
            Op::CoResume(0),
            Op::PushRet,
            Op::Gen(2, vec![1, 0]),
            Op::PushRet,
            Op::ReturnLocal(2),
        ],
    };

    let mut vm: Vm<usize, usize, Host> = Vm::new(
        vec![main, co],
        vec![push_from_global, add, mul],
    );

    vm.with_globals(vec![3, 5, 7]);

    let data: usize = vm.run(0).unwrap().unwrap();

    assert_eq!(data, 448);
}

#[test]
fn should_handle_dyn_call_params() {
    let push_from_global = gen_push_global();
    let add = gen_add();
    let mul = gen_mul();
    let set_dyn = GenOp::Frame { name: "set dyn call".into(), op: Host::SetDynCall };

    let co = Fun {
        name: "co".into(),
        instrs: vec![
            Op::Gen(1, vec![0, 1]),
            Op::PushRet,
            Op::CoYield(3),
            Op::Gen(2, vec![3, 2]),
            Op::PushRet,
            Op::CoYield(4),
            Op::CoFinish,
        ],
    };

    let main = Fun {
        name: "main".into(),
        instrs: vec![
            Op::Gen(0, vec![0]),
            Op::Gen(0, vec![1]),
            Op::Gen(0, vec![2]),
            Op::Gen(0, vec![3]),
            Op::Gen(3, vec![0]),
            Op::DynCall(vec![1, 2, 3]),
            Op::Drop(0),
            Op::Drop(0),
            Op::Drop(0),
            Op::Drop(0),
            Op::PushRet,
            Op::CoResume(0),
            Op::PushRet,
            Op::Gen(2, vec![0, 1]),
            Op::PushRet,
            Op::ReturnLocal(2),
        ],
    };

    let mut vm: Vm<usize, usize, Host> = Vm::new(
        vec![main, co],
        vec![push_from_global, add, mul, set_dyn],
    );

    vm.with_globals(vec![1, 3, 5, 7]);

    let data: usize = vm.run(0).unwrap().unwrap();

    assert_eq!(data, 448);
}

#[test]
fn should_preserve_active_coroutine_for_finish_set_branch() {
    let push_from_global = gen_push_global();
    let set_branch_on_finish = gen_set_branch_on_finish();

    let co = Fun {
        name: "co".into(),
        instrs: vec![Op::Gen(0, vec![0]), Op::CoYield(0), Op::CoYield(0), Op::CoFinish],
    };

    let main = Fun {
        name: "main".into(),
        instrs: vec![
            Op::Call(1, vec![]),
            Op::Gen(1, vec![0]),
            Op::Branch(6),
            Op::CoResume(0),
            Op::Gen(0, vec![1]),
            Op::ReturnLocal(0),
            Op::Gen(0, vec![0]),
            Op::ReturnLocal(0),
        ],
    };

    let mut vm: Vm<usize, usize, Host> = Vm::new(
        vec![main, co],
        vec![push_from_global, set_branch_on_finish],
    );

    vm.with_globals(vec![1, 2]);

    let data: usize = vm.run(0).unwrap().unwrap();

    assert_eq!(data, 2);
}

#[test]
fn should_remove_finished_coroutine_for_finish_set_branch() {
    let push_from_global = gen_push_global();
    let add = gen_add();
    let set_branch_on_finish = gen_set_branch_on_finish();

    let co = Fun {
        name: "co".into(),
        instrs: vec![
            Op::Gen(0, vec![0]),
            Op::Gen(0, vec![1]),
            Op::CoYield(0),
            Op::CoYield(0),
            Op::CoYield(1),
            Op::CoFinish,
        ],
    };

    let main = Fun {
        name: "main".into(),
        instrs: vec![
            Op::Call(1, vec![]),
            Op::Call(1, vec![]),
            Op::Call(1, vec![]),
            Op::CoResume(0),
            Op::CoResume(0),
            Op::CoResume(0),
            Op::CoResume(1),
            Op::CoResume(1),
            Op::CoResume(1),
            Op::Gen(2, vec![0]),
            Op::CoDrop(0),
            Op::Gen(2, vec![0]),
            Op::CoDrop(0),
            Op::CoResume(0),
            Op::PushRet, // 1 on stack
            Op::CoResume(0),
            Op::PushRet, // 2 on stack
            Op::Gen(1, vec![0, 1]),
            Op::Drop(0),
            Op::Drop(0),
            Op::PushRet,
            Op::ReturnLocal(0),
        ],
    };

    let mut vm: Vm<usize, usize, Host> = Vm::new(
        vec![main, co],
        vec![push_from_global, add, set_branch_on_finish],
    );

    vm.with_globals(vec![1, 2]);

    let data: usize = vm.run(0).unwrap().unwrap();

    assert_eq!(data, 3);
}

#[test]
fn should_not_move_coroutine_position_on_resume_yield() {
    let push_from_global = gen_push_global();
    let set_branch = gen_set_branch();
    let unset_branch_on_equal = GenOp::Frame {
        name: "set branch on equal".into(),
        op: Host::UnsetBranchOnEqual,
    };

    let co = Fun {
        name: "co".into(),
        instrs: vec![Op::CoYield(0), Op::Gen(1, vec![]), Op::Branch(0)],
    };

    let main = Fun {
        name: "main".into(),
        instrs: vec![
            Op::Gen(0, vec![0]),
            Op::Gen(0, vec![1]),
            Op::Gen(0, vec![2]),
            Op::Gen(0, vec![3]),
            Op::Call(1, vec![0]),
            Op::PushRet,
            Op::Gen(2, vec![4, 0]),
            Op::Branch(40),
            Op::Drop(4),
            Op::Call(1, vec![1]),
            Op::PushRet,
            Op::Gen(2, vec![4, 1]),
            Op::Branch(40),
            Op::Drop(4),
            Op::Call(1, vec![2]),
            Op::PushRet,
            Op::Gen(2, vec![4, 2]),
            Op::Branch(40),
            Op::Drop(4),
            Op::CoResume(0),
            Op::PushRet,
            Op::Gen(2, vec![4, 0]),
            Op::Branch(40),
            Op::Drop(4),
            Op::CoResume(1),
            Op::PushRet,
            Op::Gen(2, vec![4, 1]),
            Op::Branch(40),
            Op::Drop(4),
            Op::CoResume(2),
            Op::PushRet,
            Op::Gen(2, vec![4, 2]),
            Op::Branch(40),
            Op::Drop(4),
            Op::CoResume(0),
            Op::PushRet,
            Op::Gen(2, vec![4, 0]),
            Op::Branch(40),
            Op::Drop(4),
            Op::ReturnLocal(0),
            Op::ReturnLocal(3),
        ],
    };

    let mut vm: Vm<usize, usize, Host> = Vm::new(
        vec![main, co],
        vec![push_from_global, set_branch, unset_branch_on_equal],
    );

    vm.with_globals(vec![1, 2, 3, 9]);

    let data: usize = vm.run(0).unwrap().unwrap();

    assert_eq!(data, 1);
}

#[test]
fn should_handle_coroutine_with_interleaved_coroutines() {
    let push_from_global = gen_push_global();
    let set_branch = gen_set_branch();
    let add = gen_add();

    let inf = Fun {
        name: "inf".into(),
        instrs: vec![Op::CoYield(0), Op::Gen(1, vec![]), Op::Branch(0)],
    };

    let com = Fun {
        name: "com".into(),
        instrs: vec![
            Op::Gen(0, vec![0]), // 1
            Op::Gen(0, vec![1]), // 2
            Op::Gen(0, vec![2]), // 3
            Op::Call(2, vec![0]), // coroutine 0 returns 1 forever
            Op::PushRet,
            Op::CoYield(3), // yield 1
            Op::Call(2, vec![1]), // coroutine 1 returns 2 forever
            Op::PushRet,
            Op::Gen(2, vec![3, 4]), // 1 + 2
            Op::PushRet,
            Op::CoYield(5), // yield 3
            Op::Call(2, vec![2]), // coroutine 2 returns 3 forever
            Op::PushRet,
            Op::Gen(2, vec![5, 6]), // 3 + 3
            Op::PushRet,
            Op::CoYield(7), // yield 6
            Op::Drop(6),
            Op::Drop(5),
            Op::Drop(4),
            Op::Drop(3),
            Op::Drop(2),
            Op::Drop(1),
            Op::Drop(0),
            Op::CoResume(0), // line 23
            Op::PushRet,
            Op::Gen(2, vec![0, 1]),
            Op::Drop(0),
            Op::Drop(0),
            Op::PushRet,
            Op::CoResume(1),
            Op::PushRet,
            Op::Gen(2, vec![0, 1]),
            Op::Drop(0),
            Op::Drop(0),
            Op::PushRet,
            Op::CoYield(0),
            Op::Gen(1, vec![]),
            Op::CoSwap(0, 2),
            Op::CoSwap(1, 2),
            Op::Branch(23),
            Op::CoFinish,
        ],
    };

    let main = Fun {
        name: "main".into(),
        instrs: vec![
            Op::Call(1, vec![]),
            Op::PushRet,
            Op::CoResume(0),
            Op::PushRet,
            Op::Gen(2, vec![0, 1]),
            Op::Drop(0),
            Op::Drop(0),
            Op::PushRet, // 1 + 3
            Op::CoResume(0),
            Op::PushRet,
            Op::Gen(2, vec![0, 1]),
            Op::Drop(0),
            Op::Drop(0),
            Op::PushRet, // 4 + 6
            Op::CoResume(0),
            Op::PushRet,
            Op::Gen(2, vec![0, 1]),
            Op::Drop(0),
            Op::Drop(0),
            Op::PushRet, // 10 + 9
            Op::CoResume(0),
            Op::PushRet,
            Op::Gen(2, vec![0, 1]),
            Op::Drop(0),
            Op::Drop(0),
            Op::PushRet, // 19 + 13
            Op::CoResume(0),
            Op::PushRet,
            Op::Gen(2, vec![0, 1]),
            Op::Drop(0),
            Op::Drop(0),
            Op::PushRet, // 32 + 18
            Op::CoResume(0),
            Op::PushRet,
            Op::Gen(2, vec![0, 1]),
            Op::Drop(0),
            Op::Drop(0),
            Op::PushRet, // 50 + 21
            Op::CoResume(0),
            Op::PushRet,
            Op::Gen(2, vec![0, 1]),
            Op::Drop(0),
            Op::Drop(0),
            Op::PushRet, // 71 + 25
            Op::CoResume(0),
            Op::PushRet,
            Op::Gen(2, vec![0, 1]),
            Op::Drop(0),
            Op::Drop(0),
            Op::PushRet, // 96 + 20
            Op::ReturnLocal(0), // 126
        ],
    };

    let mut vm: Vm<usize, usize, Host> = Vm::new(
        vec![main, com, inf],
        vec![push_from_global, set_branch, add],
    );

    vm.with_globals(vec![1, 2, 3]);

    let data: usize = vm.run(0).unwrap().unwrap();

    assert_eq!(data, 126);
}

#[test]
fn should_handle_coroutine_with_immediate_finish() {
    let set_branch_on_finish = gen_set_branch_on_finish();

    let co = Fun { name: "co".into(), instrs: vec![Op::CoFinish] };

    let main = Fun {
        name: "main".into(),
        instrs: vec![
            Op::Call(1, vec![]),
            Op::Gen(0, vec![0]),
            Op::Branch(4),
            Op::PushLocal(1),
            Op::PushLocal(3),
            Op::ReturnLocal(0),
        ],
    };

    let mut vm: Vm<usize, usize, Host> = Vm::new(vec![main, co], vec![set_branch_on_finish]);

    let data: usize = vm.run(0).unwrap().unwrap();

    assert_eq!(data, 3);
}

#[test]
fn should_drop_coroutine() {
    let co_count = GenOp::Frame { name: "co_count".into(), op: Host::CoCount };

    let co = Fun { name: "co".into(), instrs: vec![Op::CoFinish] };

    let main = Fun {
        name: "main".into(),
        instrs: vec![
            Op::Call(1, vec![]),
            Op::CoDrop(0),
            Op::Gen(0, vec![]),
            Op::PushRet,
            Op::ReturnLocal(0),
        ],
    };

    let mut vm: Vm<usize, usize, Host> = Vm::new(vec![main, co], vec![co_count]);

    let data: usize = vm.run(0).unwrap().unwrap();

    assert_eq!(data, 0);
}

#[test]
fn should_swap_coroutine() {
    let co = Fun {
        name: "co".into(),
        instrs: vec![
            Op::PushLocal(1),
            Op::PushLocal(2),
            Op::PushLocal(3),
            Op::CoYield(0),
            Op::CoYield(1),
            Op::CoYield(2),
            Op::CoFinish,
        ],
    };

    let main = Fun {
        name: "main".into(),
        instrs: vec![
            Op::Call(1, vec![]), // yields 1
            Op::Call(1, vec![]), // yields 1
            Op::CoResume(0), // yields 2
            Op::CoSwap(0, 1),
            Op::CoResume(0), // should yield 2
            Op::PushRet,
            Op::ReturnLocal(0),
        ],
    };

    let mut vm: Vm<usize, usize, Host> = Vm::new(vec![main, co], vec![]);

    let data: usize = vm.run(0).unwrap().unwrap();

    assert_eq!(data, 2);
}

#[test]
fn should_resume_twice_and_accumulate() {
    let push_from_global = gen_push_global();
    let add = gen_add();

    let co = Fun {
        name: "co".into(),
        instrs: vec![
            Op::Gen(0, vec![0]),
            Op::CoYield(0),
            Op::Gen(1, vec![0, 0]),
            Op::PushRet,
            Op::CoYield(1),
            Op::Gen(1, vec![0, 1]),
            Op::PushRet,
            Op::CoYield(2),
            Op::CoFinish,
        ],
    };

    let main = Fun {
        name: "main".into(),
        instrs: vec![
            Op::Call(1, vec![]),
            Op::PushRet,
            Op::CoResume(0),
            Op::PushRet,
            Op::CoResume(0),
            Op::PushRet,
            Op::Gen(1, vec![0, 1]),
            Op::PushRet,
            Op::Gen(1, vec![3, 2]),
            Op::PushRet,
            Op::ReturnLocal(4),
        ],
    };

    let mut vm: Vm<usize, usize, Host> = Vm::new(vec![main, co], vec![push_from_global, add]);

    vm.with_globals(vec![3]);

    let data: usize = vm.run(0).unwrap().unwrap();

    assert_eq!(data, 18);
}

#[test]
fn finish_set_branch_leaves_empty_coroutine_list() {
    let co_count = GenOp::Frame { name: "co_count".into(), op: Host::CoCount };

    let co = Fun { name: "co".into(), instrs: vec![Op::CoFinish] };

    let picks_three = Fun {
        name: "main".into(),
        instrs: vec![
            Op::Call(1, vec![]),
            Op::CoFinishSetBranch(0),
            Op::Branch(4),
            Op::PushLocal(1),
            Op::PushLocal(3),
            Op::ReturnLocal(0),
        ],
    };

    let mut vm: Vm<usize, usize, Host> = Vm::new(vec![picks_three, co], vec![co_count]);
    let data: usize = vm.run(0).unwrap().unwrap();
    assert_eq!(data, 3);

    let counts = Fun {
        name: "main".into(),
        instrs: vec![
            Op::Call(1, vec![]),
            Op::CoFinishSetBranch(0),
            Op::Gen(0, vec![]),
            Op::PushRet,
            Op::ReturnLocal(0),
        ],
    };

    let co2 = Fun { name: "co".into(), instrs: vec![Op::CoFinish] };
    let co_count2 = GenOp::Frame { name: "co_count".into(), op: Host::CoCount };

    let mut vm2: Vm<usize, usize, Host> = Vm::new(vec![counts, co2], vec![co_count2]);
    let data2: usize = vm2.run(0).unwrap().unwrap();
    assert_eq!(data2, 0);
}
