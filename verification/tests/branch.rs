use an_a_vm::data::{Frame, Fun, GenOp, HostOp, Op, VmEnv};
use an_a_vm::Vm;

enum Host {
    SetBranch,
    UnsetBranch,
    PushStack,
    Inc,
    Dec,
    PushGlobal,
    SetBranchOnEqual,
    SetBranchOnFinish,
    SetDynCall,
}

impl HostOp<u8, u8> for Host {
    fn call_vm(&self, env: VmEnv<'_, u8, u8>, params: &[usize]) -> Result<Option<u8>, String> {
        match self {
            Host::PushGlobal => {
                if let [s] = params {
                    let v: u8 = env.globals[*s];
                    env.current.locals.push(v);
                }
                Ok(None)
            }
            _ => Ok(None),
        }
    }

    fn call_local(&self, locals: &mut Vec<u8>, params: &[usize]) -> Result<Option<u8>, String> {
        match self {
            Host::PushStack => {
                if params[0] == 0 {
                    locals.push(0);
                }
                if params[0] == 1 {
                    locals.push(1);
                }
                Ok(None)
            }
            Host::Inc => {
                if let [s] = params {
                    let a: u8 = locals[*s];
                    Ok(Some(a + 1))
                } else {
                    Ok(None)
                }
            }
            Host::Dec => {
                if let [s] = params {
                    let a: u8 = locals[*s];
                    Ok(Some(a - 1))
                } else {
                    Ok(None)
                }
            }
            _ => Ok(None),
        }
    }

    fn call_frame(&self, frame: &mut Frame<u8>, params: &[usize]) -> Result<Option<u8>, String> {
        match self {
            Host::SetBranch => {
                frame.branch = true;
                Ok(None)
            }
            Host::UnsetBranch => {
                frame.branch = false;
                Ok(None)
            }
            Host::SetBranchOnEqual => {
                if let [s1, s2] = params {
                    frame.branch = frame.locals[*s1] == frame.locals[*s2];
                }
                Ok(None)
            }
            Host::SetBranchOnFinish => {
                frame.branch = !frame.coroutines[params[0]].is_alive();
                Ok(None)
            }
            _ => Ok(None),
        }
    }
}

impl HostOp<usize, usize> for Host {
    fn call_vm(
        &self,
        env: VmEnv<'_, usize, usize>,
        params: &[usize],
    ) -> Result<Option<usize>, String> {
        match self {
            Host::PushGlobal => {
                if let [s] = params {
                    let v: usize = env.globals[*s];
                    env.current.locals.push(v);
                }
                Ok(None)
            }
            _ => Ok(None),
        }
    }

    fn call_frame(
        &self,
        frame: &mut Frame<usize>,
        params: &[usize],
    ) -> Result<Option<usize>, String> {
        match self {
            Host::SetBranch => {
                frame.branch = true;
                Ok(None)
            }
            Host::SetBranchOnFinish => {
                frame.branch = !frame.coroutines[params[0]].is_alive();
                Ok(None)
            }
            Host::SetDynCall => {
                if let [s] = params {
                    let v: usize = frame.locals[*s];
                    frame.dyn_call = Some(v);
                }
                Ok(None)
            }
            _ => Ok(None),
        }
    }
}

fn gen_set_branch() -> GenOp<Host> {
    GenOp::Frame { name: "set".into(), op: Host::SetBranch }
}

fn gen_unset_branch() -> GenOp<Host> {
    GenOp::Frame { name: "unset".into(), op: Host::UnsetBranch }
}

fn gen_push_global() -> GenOp<Host> {
    GenOp::Vm { name: "push global".into(), op: Host::PushGlobal }
}

fn gen_set_branch_on_finish() -> GenOp<Host> {
    GenOp::Frame { name: "set_branch_on_finish".into(), op: Host::SetBranchOnFinish }
}

fn gen_set_dyn_call() -> GenOp<Host> {
    GenOp::Frame { name: "set dyn call".into(), op: Host::SetDynCall }
}

#[test]
fn should_branch() {
    let set_branch = GenOp::Frame { name: "set".into(), op: Host::SetBranch };
    let unset_branch = gen_unset_branch();
    let push_stack = GenOp::Local { name: "push".into(), op: Host::PushStack };

    let main = Fun {
        name: "main".into(),
        instrs: vec![
            Op::Gen(0, vec![]),
            Op::Branch(4),
            Op::Gen(2, vec![0]),
            Op::ReturnLocal(0),
            Op::Gen(1, vec![]),
            Op::Branch(8),
            Op::Gen(2, vec![1]),
            Op::ReturnLocal(0),
            Op::Gen(2, vec![0]),
            Op::ReturnLocal(0),
        ],
    };

    let mut vm: Vm<u8, u8, Host> = Vm::new(vec![main], vec![set_branch, unset_branch, push_stack]);

    let data: u8 = vm.run(0).unwrap().unwrap();

    assert_eq!(data, 1);
}

#[test]
fn should_loop() {
    let inc = GenOp::Local { name: "inc".into(), op: Host::Inc };
    let dec = GenOp::Local { name: "dec".into(), op: Host::Dec };
    let push_from_global = gen_push_global();
    let set_branch_on_equal = GenOp::Frame {
        name: "set branch on equal".into(),
        op: Host::SetBranchOnEqual,
    };
    let set_branch: GenOp<Host> = gen_set_branch();

    let main = Fun {
        name: "main".into(),
        instrs: vec![
            Op::Gen(2, vec![0]),
            Op::Gen(2, vec![0]),
            Op::Gen(2, vec![1]),
            Op::Gen(3, vec![0, 2]),
            Op::Branch(19),
            Op::Gen(0, vec![1]),
            Op::PushRet,
            Op::Swap(1, 3),
            Op::Drop(3),
            Op::Gen(0, vec![1]),
            Op::PushRet,
            Op::Swap(1, 3),
            Op::Drop(3),
            Op::Gen(1, vec![2]),
            Op::PushRet,
            Op::Swap(2, 3),
            Op::Drop(3),
            Op::Gen(4, vec![]),
            Op::Branch(3),
            Op::ReturnLocal(1),
        ],
    };

    let mut vm: Vm<u8, u8, Host> = Vm::new(
        vec![main],
        vec![inc, dec, push_from_global, set_branch_on_equal, set_branch],
    );

    vm.with_globals(vec![0, 10]);

    let data: u8 = vm.run(0).unwrap().unwrap();

    assert_eq!(data, 20);
}

#[test]
fn should_not_branch_on_active_coroutine() {
    let push_from_global = gen_push_global();
    let set_branch_on_finish = gen_set_branch_on_finish();

    let co = Fun {
        name: "co".into(),
        instrs: vec![Op::Gen(0, vec![0]), Op::CoYield(0), Op::CoFinish],
    };

    let main = Fun {
        name: "main".into(),
        instrs: vec![
            Op::Call(1, vec![]),
            Op::Gen(1, vec![0]),
            Op::Branch(4),
            Op::Gen(0, vec![1]),
            Op::Gen(0, vec![2]),
            Op::ReturnLocal(0),
        ],
    };

    let mut vm: Vm<u8, u8, Host> = Vm::new(
        vec![main, co],
        vec![push_from_global, set_branch_on_finish],
    );

    vm.with_globals(vec![1, 3, 5]);

    let data: u8 = vm.run(0).unwrap().unwrap();

    assert_eq!(data, 3);
}

#[test]
fn should_branch_on_finished_coroutine() {
    let push_from_global = gen_push_global();
    let set_branch_on_finish = gen_set_branch_on_finish();

    let co = Fun { name: "co".into(), instrs: vec![Op::CoFinish] };

    let main = Fun {
        name: "main".into(),
        instrs: vec![
            Op::Call(1, vec![]),
            Op::Gen(1, vec![0]),
            Op::Branch(4),
            Op::Gen(0, vec![0]),
            Op::Gen(0, vec![1]),
            Op::ReturnLocal(0),
        ],
    };

    let mut vm: Vm<u8, u8, Host> = Vm::new(
        vec![main, co],
        vec![push_from_global, set_branch_on_finish],
    );

    vm.with_globals(vec![1, 3]);

    let data: u8 = vm.run(0).unwrap().unwrap();

    assert_eq!(data, 3);
}

#[test]
fn should_branch_on_finished_coroutine_with_active_coroutine_present() {
    let push_from_global = gen_push_global();
    let set_branch_on_finish = gen_set_branch_on_finish();

    let co = Fun {
        name: "co".into(),
        instrs: vec![Op::Gen(0, vec![0]), Op::CoYield(0), Op::CoFinish],
    };

    let main = Fun {
        name: "main".into(),
        instrs: vec![
            Op::Call(1, vec![]),
            Op::Call(1, vec![]),
            Op::CoResume(1),
            Op::Gen(1, vec![1]),
            Op::Branch(6),
            Op::Gen(0, vec![1]),
            Op::Gen(0, vec![2]),
            Op::ReturnLocal(0),
        ],
    };

    let mut vm: Vm<u8, u8, Host> = Vm::new(
        vec![main, co],
        vec![push_from_global, set_branch_on_finish],
    );

    vm.with_globals(vec![1, 3, 5]);

    let data: u8 = vm.run(0).unwrap().unwrap();

    assert_eq!(data, 5);
}

#[test]
fn should_branch_on_finished_coroutine_in_function_where_parent_has_active_coroutine() {
    let push_from_global = gen_push_global();
    let set_branch_on_finish = gen_set_branch_on_finish();

    let co = Fun {
        name: "co".into(),
        instrs: vec![Op::Gen(0, vec![0]), Op::CoYield(0), Op::CoFinish],
    };

    let child = Fun {
        name: "child".into(),
        instrs: vec![
            Op::Call(2, vec![]),
            Op::CoResume(0),
            Op::Gen(1, vec![0]),
            Op::Branch(5),
            Op::Gen(0, vec![1]),
            Op::Gen(0, vec![2]),
            Op::ReturnLocal(0),
        ],
    };

    let main = Fun {
        name: "main".into(),
        instrs: vec![
            Op::Call(2, vec![]),
            Op::Call(1, vec![]),
            Op::PushRet,
            Op::ReturnLocal(0),
        ],
    };

    let mut vm: Vm<u8, u8, Host> = Vm::new(
        vec![main, child, co],
        vec![push_from_global, set_branch_on_finish],
    );

    vm.with_globals(vec![1, 3, 5]);

    let data: u8 = vm.run(0).unwrap().unwrap();

    assert_eq!(data, 5);
}

#[test]
fn should_branch_on_finished_coroutine_in_dyn_function_where_parent_has_active_coroutine() {
    let push_from_global = gen_push_global();
    let set_dyn_call = gen_set_dyn_call();
    let set_branch_on_finish = gen_set_branch_on_finish();

    let co = Fun {
        name: "co".into(),
        instrs: vec![Op::Gen(0, vec![0]), Op::CoYield(0), Op::CoFinish],
    };

    let child = Fun {
        name: "child".into(),
        instrs: vec![
            Op::Call(2, vec![]),
            Op::CoResume(0),
            Op::Gen(2, vec![0]),
            Op::Branch(5),
            Op::Gen(0, vec![1]),
            Op::Gen(0, vec![2]),
            Op::ReturnLocal(0),
        ],
    };

    let main = Fun {
        name: "main".into(),
        instrs: vec![
            Op::Call(2, vec![]),
            Op::Gen(0, vec![0]),
            Op::Gen(1, vec![0]),
            Op::DynCall(vec![]),
            Op::Call(1, vec![]),
            Op::PushRet,
            Op::ReturnLocal(1),
        ],
    };

    let mut vm: Vm<usize, usize, Host> = Vm::new(
        vec![main, child, co],
        vec![push_from_global, set_dyn_call, set_branch_on_finish],
    );

    vm.with_globals(vec![1, 3, 5]);

    let data: usize = vm.run(0).unwrap().unwrap();

    assert_eq!(data, 5);
}

#[test]
fn should_branch_on_finished_coroutine_in_resumed_coroutine_where_parent_has_active_coroutine() {
    let push_from_global = gen_push_global();
    let set_branch_on_finish = gen_set_branch_on_finish();

    let co = Fun {
        name: "co".into(),
        instrs: vec![Op::Gen(0, vec![0]), Op::CoYield(0), Op::CoFinish],
    };

    let child = Fun {
        name: "child".into(),
        instrs: vec![
            Op::Call(2, vec![]),
            Op::Gen(0, vec![0]),
            Op::CoYield(0),
            Op::CoResume(0),
            Op::Gen(1, vec![0]),
            Op::Branch(7),
            Op::Gen(0, vec![1]),
            Op::Gen(0, vec![2]),
            Op::CoYield(1),
            Op::CoFinish,
        ],
    };

    let main = Fun {
        name: "main".into(),
        instrs: vec![
            Op::Call(2, vec![]),
            Op::Call(1, vec![]),
            Op::CoResume(1),
            Op::PushRet,
            Op::ReturnLocal(0),
        ],
    };

    let mut vm: Vm<usize, usize, Host> = Vm::new(
        vec![main, child, co],
        vec![push_from_global, set_branch_on_finish],
    );

    vm.with_globals(vec![1, 3, 5]);

    let data: usize = vm.run(0).unwrap().unwrap();

    assert_eq!(data, 5);
}
