//! Executes a generated module directly, by walking its basic blocks.
//!
//! This is the consumer of the code generator's output: it gives the
//! generated form an observable behaviour, so a lowered program can be run
//! and its result inspected.  Execution is fuel-bounded: every block entered
//! and every call spends fuel, and exhaustion is reported rather than
//! looping.  A structurally broken module is reported as malformed, never
//! followed blindly.

use vstd::prelude::*;

use crate::codegen::{Codegen, Instr, IntPredicate, Module, Terminator};

verus! {

/// Why an execution did not produce a value.
#[derive(Clone, Copy, PartialEq, Eq, Structural, Debug)]
pub enum EvalError {
    /// The module is structurally broken: an index out of range, a missing
    /// terminator, a phi with no arm for the arriving block, or a void
    /// value used where a value is needed.
    Malformed,
    /// The fuel given to the run was spent before it finished.
    OutOfFuel,
    /// A division or remainder by zero.
    DivisionByZero,
    /// A division overflow: the most negative value divided by minus one.
    Overflow,
}

/// Reads a register that must hold a value.
fn reg(regs: &Vec<Option<i64>>, i: usize) -> (r: Result<i64, EvalError>)
    ensures
        r matches Ok(v) ==> i < regs@.len() && regs@[i as int] == Some(v),
{
    if i < regs.len() {
        match regs[i] {
            Some(v) => Ok(v),
            None => Err(EvalError::Malformed),
        }
    } else {
        Err(EvalError::Malformed)
    }
}

/// Runs generated functions of a module.
pub struct ExecutionEngine {
    /// The module being executed.
    pub module: Module,
}

impl ExecutionEngine {
    /// Takes over a generator's module for execution.
    pub fn new(codegen: Codegen) -> (r: ExecutionEngine)
        ensures
            r.module == codegen.module,
    {
        ExecutionEngine { module: codegen.module }
    }

    /// Resolves a function handle by name; the latest function of that
    /// name wins, mirroring redeclaration in the registry.
    pub fn get_function(&self, function_name: &String) -> (r: Option<usize>)
        ensures
            match r {
                Some(id) => id < self.module.functions@.len()
                    && self.module.functions@[id as int].name@ == function_name@,
                None => forall|k: int|
                    0 <= k < self.module.functions@.len()
                        ==> (#[trigger] self.module.functions@[k]).name@ != function_name@,
            },
    {
        let mut i = self.module.functions.len();
        while i > 0
            invariant
                i <= self.module.functions@.len(),
                forall|k: int|
                    i <= k < self.module.functions@.len()
                        ==> (#[trigger] self.module.functions@[k]).name@ != function_name@,
            decreases i,
        {
            i = i - 1;
            if self.module.functions[i].name == *function_name {
                return Some(i);
            }
        }
        None
    }

    /// Runs one function on integer arguments.  `Ok(Some(v))` is a returned
    /// value, `Ok(None)` a void return.  A function without blocks is a
    /// forward declaration (such as the print primitive) and yields 0 as an
    /// external stub.
    #[verifier::loop_isolation(false)]
    pub fn run_function(&self, f: usize, args: &Vec<i64>, fuel: u64) -> (r: Result<
        Option<i64>,
        EvalError,
    >)
        ensures
            fuel == 0 ==> r == Err::<Option<i64>, EvalError>(EvalError::OutOfFuel),
            fuel > 0 && f >= self.module.functions@.len() ==> r == Err::<
                Option<i64>,
                EvalError,
            >(EvalError::Malformed),
            (fuel >= 2 && f < self.module.functions@.len() && ({
                let fv = self.module.functions@[f as int];
                &&& args@.len() == fv.n_params
                &&& fv.blocks@.len() == 1
                &&& fv.blocks@[0].instrs@.len() == 0
                &&& fv.blocks@[0].terminator == Some(Terminator::RetVoid)
            })) ==> r == Ok::<Option<i64>, EvalError>(None),
            (fuel >= 2 && f < self.module.functions@.len() && ({
                let fv = self.module.functions@[f as int];
                &&& args@.len() == fv.n_params
                &&& fv.blocks@.len() == 1
                &&& fv.blocks@[0].instrs@.len() == 1
                &&& fv.blocks@[0].instrs@[0] < fv.instrs@.len()
                &&& fv.blocks@[0].terminator == Some(
                    Terminator::Ret(fv.blocks@[0].instrs@[0]),
                )
            })) ==> (match self.module.functions@[f as int].instrs@[
                self.module.functions@[f as int].blocks@[0].instrs@[0] as int
            ] {
                Instr::ConstInt(v) => r == Ok::<Option<i64>, EvalError>(Some(v)),
                _ => true,
            }),
        decreases fuel,
    {
        if fuel == 0 {
            return Err(EvalError::OutOfFuel);
        }
        if f >= self.module.functions.len() {
            return Err(EvalError::Malformed);
        }
        let func = &self.module.functions[f];
        if func.blocks.len() == 0 {
            return Ok(Some(0));
        }
        let n_instrs = func.instrs.len();
        let mut regs: Vec<Option<i64>> = Vec::new();
        let mut k: usize = 0;
        while k < n_instrs
            invariant
                regs@.len() == k as int,
                k <= n_instrs,
            decreases n_instrs - k,
        {
            regs.push(None);
            k = k + 1;
        }
        if args.len() != func.n_params {
            return Err(EvalError::Malformed);
        }
        let mut k: usize = 0;
        while k < func.n_params && k < regs.len()
            invariant
                regs@.len() == n_instrs as int,
            decreases func.n_params - k,
        {
            regs[k] = Some(args[k]);
            k = k + 1;
        }
        let mut mem: Vec<i64> = Vec::new();
        let mut cur: usize = 0;
        let mut came_from: Option<usize> = None;
        let mut fuel_left: u64 = fuel - 1;
        let ghost single_const = func.blocks@.len() == 1 && func.blocks@[0].instrs@.len() == 1
            && func.blocks@[0].instrs@[0] < func.instrs@.len() && (func.instrs@[
            func.blocks@[0].instrs@[0] as int
        ] matches Instr::ConstInt(_));
        loop
            invariant
                regs@.len() == n_instrs as int,
                n_instrs == func.instrs@.len(),
                cur < func.blocks@.len(),
                f < self.module.functions@.len(),
                func == self.module.functions@[f as int],
                fuel_left < fuel,
            decreases fuel_left,
        {
            let block = &func.blocks[cur];
            let mut j: usize = 0;
            while j < block.instrs.len()
                invariant
                    regs@.len() == n_instrs as int,
                    n_instrs == func.instrs@.len(),
                    f < self.module.functions@.len(),
                    func == self.module.functions@[f as int],
                    cur < func.blocks@.len(),
                    block == func.blocks@[cur as int],
                    fuel_left < fuel,
                    j <= block.instrs@.len(),
                    single_const && j > 0 ==> (match func.instrs@[
                        func.blocks@[0].instrs@[0] as int
                    ] {
                        Instr::ConstInt(v) => regs@[func.blocks@[0].instrs@[0] as int]
                            == Some(v),
                        _ => true,
                    }),
                decreases block.instrs@.len() - j,
            {
                let id = block.instrs[j];
                if id >= n_instrs {
                    return Err(EvalError::Malformed);
                }
                let v: Option<i64> = match &func.instrs[id] {
                    Instr::Param(i) => {
                        if *i < args.len() {
                            Some(args[*i])
                        } else {
                            return Err(EvalError::Malformed);
                        }
                    },
                    Instr::ConstInt(x) => Some(*x),
                    Instr::ConstBool(b) => Some(
                        if *b {
                            1
                        } else {
                            0
                        },
                    ),
                    Instr::GlobalString(_) => Some(0),
                    Instr::ConstNull => None,
                    Instr::Alloca(_) => {
                        mem.push(0);
                        Some(#[verifier::truncate] ((mem.len() - 1) as i64))
                    },
                    Instr::Store(vv, p) => {
                        let val = match reg(&regs, *vv) {
                            Ok(x) => x,
                            Err(e) => {
                                return Err(e);
                            },
                        };
                        let ptr = match reg(&regs, *p) {
                            Ok(x) => x,
                            Err(e) => {
                                return Err(e);
                            },
                        };
                        if ptr < 0 {
                            return Err(EvalError::Malformed);
                        }
                        let p = #[verifier::truncate] (ptr as usize);
                        if p >= mem.len() {
                            return Err(EvalError::Malformed);
                        }
                        mem[p] = val;
                        None
                    },
                    Instr::Load(p) => {
                        let ptr = match reg(&regs, *p) {
                            Ok(x) => x,
                            Err(e) => {
                                return Err(e);
                            },
                        };
                        if ptr < 0 {
                            return Err(EvalError::Malformed);
                        }
                        let p = #[verifier::truncate] (ptr as usize);
                        if p >= mem.len() {
                            return Err(EvalError::Malformed);
                        }
                        Some(mem[p])
                    },
                    Instr::Add(a, b) => {
                        let (x, y) = match Self::two(&regs, *a, *b) {
                            Ok(p) => p,
                            Err(e) => {
                                return Err(e);
                            },
                        };
                        Some(x.wrapping_add(y))
                    },
                    Instr::Sub(a, b) => {
                        let (x, y) = match Self::two(&regs, *a, *b) {
                            Ok(p) => p,
                            Err(e) => {
                                return Err(e);
                            },
                        };
                        Some(x.wrapping_sub(y))
                    },
                    Instr::Mul(a, b) => {
                        let (x, y) = match Self::two(&regs, *a, *b) {
                            Ok(p) => p,
                            Err(e) => {
                                return Err(e);
                            },
                        };
                        Some(x.wrapping_mul(y))
                    },
                    Instr::SDiv(a, b) => {
                        let (x, y) = match Self::two(&regs, *a, *b) {
                            Ok(p) => p,
                            Err(e) => {
                                return Err(e);
                            },
                        };
                        if y == 0 {
                            return Err(EvalError::DivisionByZero);
                        }
                        if x == i64::MIN && y == -1 {
                            return Err(EvalError::Overflow);
                        }
                        Some(x / y)
                    },
                    Instr::SRem(a, b) => {
                        let (x, y) = match Self::two(&regs, *a, *b) {
                            Ok(p) => p,
                            Err(e) => {
                                return Err(e);
                            },
                        };
                        if y == 0 {
                            return Err(EvalError::DivisionByZero);
                        }
                        if x == i64::MIN && y == -1 {
                            return Err(EvalError::Overflow);
                        }
                        Some(x % y)
                    },
                    Instr::And(a, b) => {
                        let (x, y) = match Self::two(&regs, *a, *b) {
                            Ok(p) => p,
                            Err(e) => {
                                return Err(e);
                            },
                        };
                        Some(x & y)
                    },
                    Instr::Or(a, b) => {
                        let (x, y) = match Self::two(&regs, *a, *b) {
                            Ok(p) => p,
                            Err(e) => {
                                return Err(e);
                            },
                        };
                        Some(x | y)
                    },
                    Instr::Not(a) => {
                        let x = match reg(&regs, *a) {
                            Ok(x) => x,
                            Err(e) => {
                                return Err(e);
                            },
                        };
                        Some(!x)
                    },
                    Instr::Icmp(pred, a, b) => {
                        let (x, y) = match Self::two(&regs, *a, *b) {
                            Ok(p) => p,
                            Err(e) => {
                                return Err(e);
                            },
                        };
                        let holds = match pred {
                            IntPredicate::Eq => x == y,
                            IntPredicate::Ne => x != y,
                            IntPredicate::Slt => x < y,
                            IntPredicate::Sgt => x > y,
                            IntPredicate::Sle => x <= y,
                            IntPredicate::Sge => x >= y,
                        };
                        Some(
                            if holds {
                                1
                            } else {
                                0
                            },
                        )
                    },
                    Instr::Phi(incoming) => {
                        let pb = match came_from {
                            Some(pb) => pb,
                            None => {
                                return Err(EvalError::Malformed);
                            },
                        };
                        let mut chosen: Option<usize> = None;
                        let mut k: usize = 0;
                        while k < incoming.len()
                            invariant
                                k <= incoming@.len(),
                            decreases incoming@.len() - k,
                        {
                            if incoming[k].0 == pb {
                                chosen = Some(incoming[k].1);
                            }
                            k = k + 1;
                        }
                        match chosen {
                            Some(vid) => {
                                if vid < regs.len() {
                                    regs[vid]
                                } else {
                                    return Err(EvalError::Malformed);
                                }
                            },
                            None => {
                                return Err(EvalError::Malformed);
                            },
                        }
                    },
                    Instr::Call(g, call_args) => {
                        let mut vals: Vec<i64> = Vec::new();
                        let mut k: usize = 0;
                        while k < call_args.len()
                            invariant
                                k <= call_args@.len(),
                            decreases call_args@.len() - k,
                        {
                            let x = match reg(&regs, call_args[k]) {
                                Ok(x) => x,
                                Err(e) => {
                                    return Err(e);
                                },
                            };
                            vals.push(x);
                            k = k + 1;
                        }
                        match self.run_function(*g, &vals, fuel_left) {
                            Ok(v) => v,
                            Err(e) => {
                                return Err(e);
                            },
                        }
                    },
                };
                regs[id] = v;
                j = j + 1;
            }
            match &block.terminator {
                None => {
                    return Err(EvalError::Malformed);
                },
                Some(Terminator::Br(t)) => {
                    if *t >= func.blocks.len() {
                        return Err(EvalError::Malformed);
                    }
                    came_from = Some(cur);
                    cur = *t;
                },
                Some(Terminator::CondBr(c, t1, t2)) => {
                    let cv = match reg(&regs, *c) {
                        Ok(x) => x,
                        Err(e) => {
                            return Err(e);
                        },
                    };
                    let target = if cv != 0 {
                        *t1
                    } else {
                        *t2
                    };
                    if target >= func.blocks.len() {
                        return Err(EvalError::Malformed);
                    }
                    came_from = Some(cur);
                    cur = target;
                },
                Some(Terminator::Ret(v)) => {
                    if *v < regs.len() {
                        return Ok(regs[*v]);
                    }
                    return Err(EvalError::Malformed);
                },
                Some(Terminator::RetVoid) => {
                    return Ok(None);
                },
            }
            if fuel_left == 0 {
                return Err(EvalError::OutOfFuel);
            }
            fuel_left = fuel_left - 1;
        }
    }

    /// Reads two registers that must hold values.
    fn two(regs: &Vec<Option<i64>>, a: usize, b: usize) -> (r: Result<(i64, i64), EvalError>) {
        let x = match reg(regs, a) {
            Ok(x) => x,
            Err(e) => {
                return Err(e);
            },
        };
        let y = match reg(regs, b) {
            Ok(y) => y,
            Err(e) => {
                return Err(e);
            },
        };
        Ok((x, y))
    }

    /// Runs the unit's entry function with no arguments, as a program run
    /// would: a void return becomes the exit value 0.
    pub fn run_as_main(&self, main_fn: usize, fuel: u64) -> (r: Result<i64, EvalError>)
        ensures
            fuel == 0 ==> r == Err::<i64, EvalError>(EvalError::OutOfFuel),
            fuel > 0 && main_fn >= self.module.functions@.len() ==> r == Err::<
                i64,
                EvalError,
            >(EvalError::Malformed),
            (fuel >= 2 && main_fn < self.module.functions@.len() && ({
                let fv = self.module.functions@[main_fn as int];
                &&& fv.n_params == 0
                &&& fv.blocks@.len() == 1
                &&& fv.blocks@[0].instrs@.len() == 0
                &&& fv.blocks@[0].terminator == Some(Terminator::RetVoid)
            })) ==> r == Ok::<i64, EvalError>(0),
            (fuel >= 2 && main_fn < self.module.functions@.len() && ({
                let fv = self.module.functions@[main_fn as int];
                &&& fv.n_params == 0
                &&& fv.blocks@.len() == 1
                &&& fv.blocks@[0].instrs@.len() == 1
                &&& fv.blocks@[0].instrs@[0] < fv.instrs@.len()
                &&& fv.blocks@[0].terminator == Some(
                    Terminator::Ret(fv.blocks@[0].instrs@[0]),
                )
            })) ==> (match self.module.functions@[main_fn as int].instrs@[
                self.module.functions@[main_fn as int].blocks@[0].instrs@[0] as int
            ] {
                Instr::ConstInt(v) => r == Ok::<i64, EvalError>(v),
                _ => true,
            }),
    {
        let args: Vec<i64> = Vec::new();
        match self.run_function(main_fn, &args, fuel) {
            Ok(Some(v)) => Ok(v),
            Ok(None) => Ok(0),
            Err(e) => Err(e),
        }
    }
}

} // verus!
