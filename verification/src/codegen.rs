//! The code generator: lowers the AST into a control-flow-graph intermediate
//! form of basic blocks, instructions and phi nodes.
//!
//! Every local variable, parameters included, is given addressable storage
//! (`Alloca`) and read through `Load`, so load/store semantics stay uniform.
//! An if-expression lowers to a diamond: condition in the originating block,
//! a then block and an else (or synthesized noop) block that both branch to
//! a pre-allocated merge block, where a phi selects the result.  `&&` and
//! `||` lower to eager bitwise operations: both operands are always
//! evaluated.
//!
//! The generator maintains, and its contracts state, a well-formedness
//! invariant over the produced form: instruction operands refer to earlier
//! instructions, branch targets exist, and every incoming block of a phi
//! ends with a branch to the block holding that phi.

use vstd::prelude::*;
use vstd::string::*;

use crate::ast::{ArgDecl, Block, Decl, ElseExpression, Expression, FuncDecl, IfExpression,
    Literal, Number, Program, Statement, Type, Value};
use crate::errors::CodegenError;

verus! {

/// The comparison predicates of the `Icmp` instruction, all signed.
#[derive(Clone, Copy, PartialEq, Eq, Structural, Debug)]
pub enum IntPredicate {
    /// Equal.
    Eq,
    /// Not equal.
    Ne,
    /// Signed less than.
    Slt,
    /// Signed greater than.
    Sgt,
    /// Signed less than or equal.
    Sle,
    /// Signed greater than or equal.
    Sge,
}

/// One instruction of the intermediate form.  Operands are indices of
/// earlier instructions of the same function.
#[derive(Debug)]
pub enum Instr {
    /// The value of the n-th incoming function argument.
    Param(usize),
    /// A 64-bit signed integer constant.
    ConstInt(i64),
    /// A boolean constant.
    ConstBool(bool),
    /// A string constant, materialized as an opaque handle.
    GlobalString(String),
    /// The void sentinel, the value of an empty statement or a missing else.
    ConstNull,
    /// A fresh storage slot, named after the variable it backs.
    Alloca(String),
    /// Stores the first operand's value at the second operand's slot.
    Store(usize, usize),
    /// Reads the value stored at the operand's slot.
    Load(usize),
    /// Wrapping signed addition.
    Add(usize, usize),
    /// Wrapping signed subtraction.
    Sub(usize, usize),
    /// Wrapping signed multiplication.
    Mul(usize, usize),
    /// Signed division.
    SDiv(usize, usize),
    /// Signed remainder.
    SRem(usize, usize),
    /// Bitwise and; the eager lowering of `&&`.
    And(usize, usize),
    /// Bitwise or; the eager lowering of `||`.
    Or(usize, usize),
    /// Bitwise not; the lowering of `!`.
    Not(usize),
    /// Signed comparison, yielding 0 or 1.
    Icmp(IntPredicate, usize, usize),
    /// Selects a value according to the block control arrived from; pairs
    /// are (incoming block, value).
    Phi(Vec<(usize, usize)>),
    /// Calls the function with the given index in the module.
    Call(usize, Vec<usize>),
}

/// The closing instruction of a basic block.
#[derive(Debug, PartialEq)]
pub enum Terminator {
    /// Unconditional branch to a block.
    Br(usize),
    /// Two-way branch on a condition value: (condition, then, else).
    CondBr(usize, usize, usize),
    /// Return a value.
    Ret(usize),
    /// Return nothing.
    RetVoid,
}

/// A basic block: a label, a straight-line run of instructions, and at most
/// one terminator.  A block without a terminator is still under
/// construction.
#[derive(Debug)]
pub struct BasicBlock {
    /// The block's label, for readability of the output.
    pub label: String,
    /// Indices of the instructions of the block, in order.
    pub instrs: Vec<usize>,
    /// The closing branch or return, once emitted.
    pub terminator: Option<Terminator>,
}

/// The types the target knows.  The generated form itself is untyped; what
/// matters of a function type is its arity and whether it returns void.
#[derive(Debug)]
pub enum Types {
    /// 64-bit signed integer.
    Int,
    /// Boolean, held in one byte as 0 or 1.
    Bool,
    /// One character.
    Char,
    /// A string handle.
    String,
    /// Nothing.
    Void,
    /// A function type: return type, argument types, and whether the
    /// function is variadic.
    Func(Box<Types>, Vec<Types>, bool),
}

impl Types {
    /// The arity a function of this type has; zero for non-function types.
    pub open spec fn spec_arity(&self) -> int {
        match self {
            Types::Func(_, args, _) => args@.len() as int,
            _ => 0,
        }
    }

    /// The type of the externally linked variadic print routine.
    pub fn printf() -> (r: Types)
        ensures
            r.spec_arity() == 1,
    {
        Types::Func(Box::new(Types::Int), vec![Types::String], true)
    }

    /// The type required of a runnable unit's entry function: no arguments,
    /// integer result.
    pub fn main() -> (r: Types)
        ensures
            r.spec_arity() == 0,
    {
        Types::Func(Box::new(Types::Int), Vec::new(), false)
    }
}

/// Looks a name up in an association list; the last binding wins, so that
/// re-binding a name overwrites it.
pub open spec fn env_lookup(env: Seq<(String, usize)>, name: Seq<char>) -> Option<usize>
    decreases env.len(),
{
    if env.len() == 0 {
        None
    } else if env.last().0@ == name {
        Some(env.last().1)
    } else {
        env_lookup(env.drop_last(), name)
    }
}

/// The name components of an association list, in binding order.
pub open spec fn names_of(vars: Seq<(String, usize)>) -> Seq<Seq<char>> {
    vars.map_values(|p: (String, usize)| p.0@)
}

/// Whether a name is bound in a name list; mirrors [`env_lookup`], which
/// takes the latest binding.
pub open spec fn name_bound(names: Seq<Seq<char>>, n: Seq<char>) -> bool
    decreases names.len(),
{
    if names.len() == 0 {
        false
    } else if names.last() == n {
        true
    } else {
        name_bound(names.drop_last(), n)
    }
}

/// A lookup succeeds exactly when the name is bound.
pub proof fn lemma_lookup_is_bound(vars: Seq<(String, usize)>, n: Seq<char>)
    ensures
        (env_lookup(vars, n) is Some) == name_bound(names_of(vars), n),
    decreases vars.len(),
{
    if vars.len() > 0 {
        assert(names_of(vars).last() == vars.last().0@);
        assert(names_of(vars).drop_last() =~= names_of(vars.drop_last()));
        lemma_lookup_is_bound(vars.drop_last(), n);
    }
}

/// Appending a binding appends its name.
pub proof fn lemma_names_push(vars: Seq<(String, usize)>, p: (String, usize))
    ensures
        names_of(vars.push(p)) =~= names_of(vars).push(p.0@),
{
}

/// Whether the generator can lower an expression: every variable read is
/// bound at that point and every callee is the function itself or in the
/// registry.  On success the result is the bound-name list afterwards,
/// since declarations inside block expressions persist in the flat map.
pub open spec fn check_expr(
    e: Expression,
    vars: Seq<Seq<char>>,
    env: Seq<Seq<char>>,
    self_name: Seq<char>,
) -> Option<Seq<Seq<char>>>
    decreases e, 0int,
{
    match e {
        Expression::Addition(l, r)
        | Expression::Subtraction(l, r)
        | Expression::Multiplication(l, r)
        | Expression::Division(l, r)
        | Expression::Modulus(l, r)
        | Expression::Equality(l, r)
        | Expression::NotEq(l, r)
        | Expression::LessThan(l, r)
        | Expression::GreaterThan(l, r)
        | Expression::LessEq(l, r)
        | Expression::GreaterEq(l, r)
        | Expression::And(l, r)
        | Expression::Or(l, r) => match check_expr(*l, vars, env, self_name) {
            Some(v1) => check_expr(*r, v1, env, self_name),
            None => None,
        },
        Expression::Not(x) => check_expr(*x, vars, env, self_name),
        Expression::If(ie) => check_if(*ie, vars, env, self_name),
        Expression::Block(b) => check_block(b, vars, env, self_name),
        Expression::Value(v) => match v {
            Value::Literal(_) => Some(vars),
            Value::Variable(n) => if name_bound(vars, n@) {
                Some(vars)
            } else {
                None
            },
            Value::FunctionCall(f) => match check_args(f.arguments@, 0, vars, env, self_name) {
                Some(v1) => if f.name@ == self_name || name_bound(env, f.name@) {
                    Some(v1)
                } else {
                    None
                },
                None => None,
            },
        },
    }
}

/// Checks a call's arguments in order, threading the bound names.
pub open spec fn check_args(
    args: Seq<Expression>,
    i: int,
    vars: Seq<Seq<char>>,
    env: Seq<Seq<char>>,
    self_name: Seq<char>,
) -> Option<Seq<Seq<char>>>
    decreases args, args.len() - i,
{
    if i < 0 || i >= args.len() {
        Some(vars)
    } else {
        match check_expr(args[i], vars, env, self_name) {
            Some(v1) => check_args(args, i + 1, v1, env, self_name),
            None => None,
        }
    }
}

/// Whether the generator can lower a statement; a declaration binds its
/// name after its initializer is checked.
pub open spec fn check_stmt(
    s: Statement,
    vars: Seq<Seq<char>>,
    env: Seq<Seq<char>>,
    self_name: Seq<char>,
) -> Option<Seq<Seq<char>>>
    decreases s, 0int,
{
    match s {
        Statement::VarDecl(vd) => match check_expr(vd.expression, vars, env, self_name) {
            Some(v1) => Some(v1.push(vd.identifier@)),
            None => None,
        },
        Statement::Expression(e) => check_expr(e, vars, env, self_name),
        Statement::Empty => Some(vars),
    }
}

/// Checks a block's statements in order; an empty block cannot be lowered.
pub open spec fn check_block(
    b: Block,
    vars: Seq<Seq<char>>,
    env: Seq<Seq<char>>,
    self_name: Seq<char>,
) -> Option<Seq<Seq<char>>>
    decreases b, 0int,
{
    if b.0@.len() == 0 {
        None
    } else {
        check_stmts(b.0@, 0, vars, env, self_name)
    }
}

/// Checks statements from index `i` on, threading the bound names.
pub open spec fn check_stmts(
    stmts: Seq<Statement>,
    i: int,
    vars: Seq<Seq<char>>,
    env: Seq<Seq<char>>,
    self_name: Seq<char>,
) -> Option<Seq<Seq<char>>>
    decreases stmts, stmts.len() - i,
{
    if i < 0 || i >= stmts.len() {
        Some(vars)
    } else {
        match check_stmt(stmts[i], vars, env, self_name) {
            Some(v1) => check_stmts(stmts, i + 1, v1, env, self_name),
            None => None,
        }
    }
}

/// Whether the generator can lower an if-expression: condition, then body,
/// then the else part, each seeing the names the one before left bound.
pub open spec fn check_if(
    ie: IfExpression,
    vars: Seq<Seq<char>>,
    env: Seq<Seq<char>>,
    self_name: Seq<char>,
) -> Option<Seq<Seq<char>>>
    decreases ie, 0int,
{
    match check_expr(ie.condition, vars, env, self_name) {
        Some(v1) => match check_block(ie.body, v1, env, self_name) {
            Some(v2) => match ie.else_expression {
                ElseExpression::Block(b) => check_block(b, v2, env, self_name),
                ElseExpression::IfExpression(inner) => check_if(*inner, v2, env, self_name),
                ElseExpression::Empty => Some(v2),
            },
            None => None,
        },
        None => None,
    }
}

/// The argument names of a function, in order.
pub open spec fn arg_names(args: Seq<ArgDecl>) -> Seq<Seq<char>> {
    args.map_values(|a: ArgDecl| a.name@)
}

/// Whether one function declaration can be generated against a registry:
/// its body lowers with the parameters bound and the function itself
/// callable.
pub open spec fn check_function(f: FuncDecl, env: Seq<Seq<char>>) -> bool {
    check_block(f.body, arg_names(f.args@), env, f.name@) is Some
}

/// Whether every declaration of a program generates, in order, each
/// function entering the registry before the next; a top-level variable
/// declaration is unsupported.
pub open spec fn check_program_decls(p: Program, env: Seq<Seq<char>>) -> bool
    decreases p,
{
    match p {
        Program::Decl(d, rest) => match d {
            Decl::FuncDecl(f) => check_function(f, env) && check_program_decls(
                *rest,
                env.push(f.name@),
            ),
            Decl::VarDecl(_) => false,
        },
        Program::Empty => true,
    }
}

/// Whether a program declares a function of the given name.
pub open spec fn program_declares(p: Program, n: Seq<char>) -> bool
    decreases p,
{
    match p {
        Program::Decl(d, rest) => (match d {
            Decl::FuncDecl(f) => f.name@ == n,
            Decl::VarDecl(_) => false,
        }) || program_declares(*rest, n),
        Program::Empty => false,
    }
}

/// The registry names after generating a program's declarations.
pub open spec fn decls_names(p: Program, env: Seq<Seq<char>>) -> Seq<Seq<char>>
    decreases p,
{
    match p {
        Program::Decl(d, rest) => match d {
            Decl::FuncDecl(f) => decls_names(*rest, env.push(f.name@)),
            Decl::VarDecl(_) => env,
        },
        Program::Empty => env,
    }
}

/// After generation a name is bound exactly when it was before or the
/// program declares it.
pub proof fn lemma_decls_names_bound(p: Program, env: Seq<Seq<char>>, n: Seq<char>)
    requires
        check_program_decls(p, env),
    ensures
        name_bound(decls_names(p, env), n) == (program_declares(p, n) || name_bound(env, n)),
    decreases p,
{
    match p {
        Program::Decl(d, rest) => match d {
            Decl::FuncDecl(f) => {
                lemma_decls_names_bound(*rest, env.push(f.name@), n);
                assert(env.push(f.name@).drop_last() =~= env);
            },
            Decl::VarDecl(_) => {},
        },
        Program::Empty => {},
    }
}

/// How many instructions lowering an expression emits.
pub open spec fn expr_size(e: Expression) -> nat
    decreases e, 1int,
{
    match e {
        Expression::Addition(l, r) => expr_size(*l) + expr_size(*r) + 1,
        Expression::Subtraction(l, r) => expr_size(*l) + expr_size(*r) + 1,
        Expression::Multiplication(l, r) => expr_size(*l) + expr_size(*r) + 1,
        Expression::Division(l, r) => expr_size(*l) + expr_size(*r) + 1,
        Expression::Modulus(l, r) => expr_size(*l) + expr_size(*r) + 1,
        Expression::Equality(l, r) => expr_size(*l) + expr_size(*r) + 1,
        Expression::NotEq(l, r) => expr_size(*l) + expr_size(*r) + 1,
        Expression::LessThan(l, r) => expr_size(*l) + expr_size(*r) + 1,
        Expression::GreaterThan(l, r) => expr_size(*l) + expr_size(*r) + 1,
        Expression::LessEq(l, r) => expr_size(*l) + expr_size(*r) + 1,
        Expression::GreaterEq(l, r) => expr_size(*l) + expr_size(*r) + 1,
        Expression::And(l, r) => expr_size(*l) + expr_size(*r) + 1,
        Expression::Or(l, r) => expr_size(*l) + expr_size(*r) + 1,
        Expression::Not(x) => expr_size(*x) + 1,
        Expression::If(ie) => if_size(*ie),
        Expression::Block(b) => block_size(b),
        Expression::Value(v) => match v {
            Value::Literal(_) => 1,
            Value::Variable(_) => 1,
            Value::FunctionCall(f) => args_sizes(f.arguments@, 0) + 1,
        },
    }
}

/// How many instructions lowering the arguments from index `i` on emits.
pub open spec fn args_sizes(args: Seq<Expression>, i: int) -> nat
    decreases args, args.len() - i,
{
    if i < 0 || i >= args.len() {
        0
    } else {
        expr_size(args[i]) + args_sizes(args, i + 1)
    }
}

/// How many instructions lowering a statement emits: a declaration adds
/// its storage and store after the initializer; an empty statement is the
/// void sentinel.
pub open spec fn stmt_size(s: Statement) -> nat
    decreases s, 1int,
{
    match s {
        Statement::VarDecl(vd) => expr_size(vd.expression) + 2,
        Statement::Expression(e) => expr_size(e),
        Statement::Empty => 1,
    }
}

/// How many instructions lowering the statements from index `i` on emits.
pub open spec fn stmts_sizes(stmts: Seq<Statement>, i: int) -> nat
    decreases stmts, stmts.len() - i,
{
    if i < 0 || i >= stmts.len() {
        0
    } else {
        stmt_size(stmts[i]) + stmts_sizes(stmts, i + 1)
    }
}

/// How many instructions lowering a block emits.
pub open spec fn block_size(b: Block) -> nat
    decreases b, 2int,
{
    stmts_sizes(b.0@, 0)
}

/// How many instructions lowering an if-expression emits: condition, then
/// body, else part (the zero sentinel when absent), and the merge phi.
pub open spec fn if_size(ie: IfExpression) -> nat
    decreases ie, 2int,
{
    expr_size(ie.condition) + block_size(ie.body) + (match ie.else_expression {
        ElseExpression::Block(b) => block_size(b),
        ElseExpression::IfExpression(inner) => if_size(*inner),
        ElseExpression::Empty => 1,
    }) + 1
}

/// The handle lowering an expression returns when its instructions start
/// at `base`: the final emission for every form but a block, whose value
/// is its last statement's.
pub open spec fn expr_result(e: Expression, base: int) -> int
    decreases e, 3int,
{
    match e {
        Expression::Block(b) => block_result(b, base),
        _ => base + expr_size(e) - 1,
    }
}

/// The handle lowering a statement returns: a declaration's value is its
/// initializer's.
pub open spec fn stmt_result(s: Statement, base: int) -> int
    decreases s, 3int,
{
    match s {
        Statement::VarDecl(vd) => expr_result(vd.expression, base),
        Statement::Expression(e) => expr_result(e, base),
        Statement::Empty => base,
    }
}

/// The handle lowering a block returns: the value of its last statement,
/// the earlier ones lowered before it for their effects.
pub open spec fn block_result(b: Block, base: int) -> int
    decreases b, 4int,
{
    stmts_results(b.0@, 0, base)
}

/// The handle of the last statement's value, lowering from index `i` at
/// `base`.
pub open spec fn stmts_results(stmts: Seq<Statement>, i: int, base: int) -> int
    decreases stmts, stmts.len() - i,
{
    if i < 0 || i >= stmts.len() {
        base
    } else if i == stmts.len() - 1 {
        stmt_result(stmts[i], base)
    } else {
        stmts_results(stmts, i + 1, base + stmt_size(stmts[i]))
    }
}

/// The shared function registry: names bound to indices of generated
/// functions in the module, latest binding first in case of redeclaration.
#[derive(Debug)]
pub struct Environment(pub Vec<(String, usize)>);

impl Environment {
    /// Creates an empty registry.
    pub fn new() -> (r: Environment)
        ensures
            r.0@.len() == 0,
    {
        Environment(Vec::new())
    }

    /// A copy of this registry, for a function's private snapshot.
    pub fn snapshot(&self) -> (r: Environment)
        ensures
            r.0@ == self.0@,
    {
        let mut list: Vec<(String, usize)> = Vec::new();
        let mut i: usize = 0;
        while i < self.0.len()
            invariant
                i <= self.0@.len(),
                list@.len() == i as int,
                forall|k: int| 0 <= k < i ==> #[trigger] list@[k] == self.0@[k],
            decreases self.0@.len() - i,
        {
            let name = self.0[i].0.clone();
            let id = self.0[i].1;
            list.push((name, id));
            i = i + 1;
        }
        proof {
            assert(list@ =~= self.0@);
        }
        Environment(list)
    }
}

/// Looks a name up in an association list, last binding first.
pub fn lookup(list: &Vec<(String, usize)>, name: &String) -> (r: Option<usize>)
    ensures
        r == env_lookup(list@, name@),
{
    proof {
        assert(list@.take(list@.len() as int) =~= list@);
    }
    let mut i = list.len();
    while i > 0
        invariant
            i <= list@.len(),
            env_lookup(list@, name@) == env_lookup(list@.take(i as int), name@),
        decreases i,
    {
        proof {
            assert(list@.take(i as int).last() == list@[i - 1]);
            assert(list@.take(i as int).drop_last() =~= list@.take(i - 1));
        }
        if list[i - 1].0 == *name {
            return Some(list[i - 1].1);
        }
        i = i - 1;
    }
    proof {
        assert(list@.take(0).len() == 0);
    }
    None
}

/// Operand well-formedness of one instruction standing at index `idx`:
/// value operands refer to strictly earlier instructions, a parameter index
/// is within the arity, a phi's blocks exist, and a callee is within the
/// functions generated so far, the function itself included.
pub open spec fn instr_wf(
    ins: Instr,
    idx: int,
    n_blocks: int,
    n_params: int,
    n_funcs: int,
) -> bool {
    match ins {
        Instr::Param(i) => i < n_params,
        Instr::ConstInt(_) => true,
        Instr::ConstBool(_) => true,
        Instr::GlobalString(_) => true,
        Instr::ConstNull => true,
        Instr::Alloca(_) => true,
        Instr::Store(v, p) => v < idx && p < idx,
        Instr::Load(p) => p < idx,
        Instr::Add(a, b) => a < idx && b < idx,
        Instr::Sub(a, b) => a < idx && b < idx,
        Instr::Mul(a, b) => a < idx && b < idx,
        Instr::SDiv(a, b) => a < idx && b < idx,
        Instr::SRem(a, b) => a < idx && b < idx,
        Instr::And(a, b) => a < idx && b < idx,
        Instr::Or(a, b) => a < idx && b < idx,
        Instr::Not(a) => a < idx,
        Instr::Icmp(_, a, b) => a < idx && b < idx,
        Instr::Phi(inc) => forall|k: int|
            0 <= k < inc@.len() ==> (#[trigger] inc@[k]).0 < n_blocks && inc@[k].1 < idx,
        Instr::Call(f, args) => f < n_funcs && forall|k: int|
            0 <= k < args@.len() ==> #[trigger] args@[k] < idx,
    }
}

/// Well-formedness of a terminator: branch targets exist and a returned or
/// tested value exists.
pub open spec fn term_wf(t: Terminator, n_instrs: int, n_blocks: int) -> bool {
    match t {
        Terminator::Br(b) => b < n_blocks,
        Terminator::CondBr(c, t1, t2) => c < n_instrs && t1 < n_blocks && t2 < n_blocks,
        Terminator::Ret(v) => v < n_instrs,
        Terminator::RetVoid => true,
    }
}

/// Well-formedness of a block's contents against the function's counts.
pub open spec fn basic_block_wf(blk: BasicBlock, n_instrs: int, n_blocks: int) -> bool {
    &&& forall|j: int| 0 <= j < blk.instrs@.len() ==> #[trigger] blk.instrs@[j] < n_instrs
    &&& match blk.terminator {
        Some(t) => term_wf(t, n_instrs, n_blocks),
        None => true,
    }
}

/// One block grew out of another: same label, the instruction list only
/// appended to, and a terminator, once set, never changed.
pub open spec fn block_extended(pre: BasicBlock, post: BasicBlock) -> bool {
    &&& post.label@ == pre.label@
    &&& pre.instrs@.len() <= post.instrs@.len()
    &&& post.instrs@.subrange(0, pre.instrs@.len() as int) =~= pre.instrs@
    &&& (pre.terminator is Some ==> post.terminator == pre.terminator)
}

/// A function being generated, together with its per-function state: the
/// variable-name map, a snapshot of the global registry, and the current
/// insertion point that emitted operations append to.
#[derive(Debug)]
pub struct Function {
    /// The function's name.
    pub name: String,
    /// The function's type; its arity fixes the number of parameters.
    pub function_type: Types,
    /// Number of parameters.
    pub n_params: usize,
    /// The handle this function will have in the module; usable for
    /// self-calls before generation has finished.
    pub self_id: usize,
    /// All instructions of the function; indices into this list are the
    /// value handles.
    pub instrs: Vec<Instr>,
    /// The basic blocks, in creation order.
    pub blocks: Vec<BasicBlock>,
    /// Variable name to storage handle, one flat map for the whole
    /// function; re-binding overwrites.
    pub variables: Vec<(String, usize)>,
    /// Snapshot of the global function registry at creation time.
    pub global: Environment,
    /// The block new operations are appended to, if any.
    pub current_basic_block: Option<usize>,
}

impl Function {
    /// The current insertion point as an index, -1 when none is set.
    pub open spec fn cur(&self) -> int {
        match self.current_basic_block {
            Some(c) => c as int,
            None => -1,
        }
    }

    /// Every incoming block of every phi ends with an unconditional branch
    /// to the block holding the phi: phi operands come from direct
    /// predecessors of their merge block.
    pub open spec fn phi_preds_ok(&self) -> bool {
        forall|b: int, j: int|
            0 <= b < self.blocks@.len() && 0 <= j < self.blocks@[b].instrs@.len()
                && (#[trigger] self.blocks@[b].instrs@[j]) < self.instrs@.len() ==> match self
                .instrs@[self.blocks@[b].instrs@[j] as int] {
                Instr::Phi(inc) => forall|k: int|
                    0 <= k < inc@.len() ==> (#[trigger] inc@[k]).0 < self.blocks@.len()
                        && self.blocks@[inc@[k].0 as int].terminator == Some(
                        Terminator::Br(b as usize),
                    ) && self.blocks@[inc@[k].0 as int].instrs@.contains(inc@[k].1),
                _ => true,
            }
    }

    /// The generator's working invariant: all instructions and blocks are
    /// well formed, parameters stand first, phi operands come from
    /// predecessors, the maps refer to existing values and functions, and
    /// the insertion point, when set, is an open block.
    pub open spec fn inv(&self) -> bool {
        &&& self.n_params <= self.instrs@.len()
        &&& forall|i: int|
            0 <= i < self.instrs@.len() ==> instr_wf(
                #[trigger] self.instrs@[i],
                i,
                self.blocks@.len() as int,
                self.n_params as int,
                self.self_id as int + 1,
            )
        &&& forall|b: int|
            0 <= b < self.blocks@.len() ==> basic_block_wf(
                #[trigger] self.blocks@[b],
                self.instrs@.len() as int,
                self.blocks@.len() as int,
            )
        &&& self.phi_preds_ok()
        &&& forall|v: int|
            0 <= v < self.variables@.len() ==> (#[trigger] self.variables@[v]).1
                < self.instrs@.len()
        &&& forall|e: int|
            0 <= e < self.global.0@.len() ==> (#[trigger] self.global.0@[e]).1 < self.self_id
        &&& match self.current_basic_block {
            Some(c) => c < self.blocks@.len() && self.blocks@[c as int].terminator is None,
            None => true,
        }
    }

    /// What any build step preserves: the function's identity and registry
    /// snapshot, everything already emitted, and the openness of blocks it
    /// has no business touching (all but the insertion point).
    pub open spec fn extends(pre: Function, post: Function) -> bool {
        &&& post.name@ == pre.name@
        &&& post.n_params == pre.n_params
        &&& post.self_id == pre.self_id
        &&& post.global.0@ == pre.global.0@
        &&& pre.instrs@.len() <= post.instrs@.len()
        &&& post.instrs@.subrange(0, pre.instrs@.len() as int) =~= pre.instrs@
        &&& pre.blocks@.len() <= post.blocks@.len()
        &&& forall|b: int|
            0 <= b < pre.blocks@.len() ==> block_extended(
                #[trigger] pre.blocks@[b],
                post.blocks@[b],
            )
        &&& forall|b: int|
            0 <= b < pre.blocks@.len() && b != pre.cur() && (#[trigger] pre.blocks@[b]).terminator
                is None ==> post.blocks@[b].terminator is None
    }

    /// Every block has received its terminator; what a finished function
    /// satisfies.
    pub open spec fn fully_terminated(&self) -> bool {
        forall|b: int|
            0 <= b < self.blocks@.len() ==> (#[trigger] self.blocks@[b]).terminator is Some
    }

    /// Runtime check of the function's structural consistency, for
    /// diagnostics: true exactly when every block is terminated.
    pub fn verify(&self) -> (r: bool)
        ensures
            r == self.fully_terminated(),
    {
        let mut b: usize = 0;
        while b < self.blocks.len()
            invariant
                b <= self.blocks@.len(),
                forall|k: int| 0 <= k < b ==> (#[trigger] self.blocks@[k]).terminator is Some,
            decreases self.blocks@.len() - b,
        {
            match self.blocks[b].terminator {
                Some(_) => {},
                None => {
                    return false;
                },
            }
            b = b + 1;
        }
        true
    }

    /// The function's name.
    pub fn name(&self) -> (r: &str)
        ensures
            r@ == self.name@,
    {
        self.name.as_str()
    }

    /// The function's own handle, valid for self-calls before generation
    /// finishes.
    pub fn value(&self) -> (r: usize)
        ensures
            r == self.self_id,
    {
        self.self_id
    }

    /// The value handle of the n-th parameter: parameters are the first
    /// instructions of every function.
    pub fn get_param(&self, index: usize) -> (r: usize)
        requires
            self.inv(),
            index < self.n_params,
        ensures
            r == index,
            r < self.instrs@.len(),
    {
        index
    }

    /// Binds a variable name to a storage handle; a later binding of the
    /// same name overwrites it.
    pub fn assign(&mut self, var: &String, value: usize)
        requires
            old(self).inv(),
            value < old(self).instrs@.len(),
        ensures
            final(self).inv(),
            *final(self) == (Function {
                variables: final(self).variables,
                ..*old(self)
            }),
            final(self).variables@ == old(self).variables@.push((*var, value)),
            env_lookup(final(self).variables@, var@) == Some(value),
    {
        self.variables.push((var.clone(), value));
        proof {
            assert(final(self).variables@.last().0@ == var@);
        }
    }

    /// Looks a variable name up in the function's flat map.
    pub fn var(&self, var: &String) -> (r: Option<usize>)
        ensures
            r == env_lookup(self.variables@, var@),
    {
        lookup(&self.variables, var)
    }

    /// Appends one instruction to the current block and returns its value
    /// handle.
    fn emit(&mut self, ins: Instr) -> (id: usize)
        requires
            old(self).inv(),
            old(self).current_basic_block is Some,
            instr_wf(
                ins,
                old(self).instrs@.len() as int,
                old(self).blocks@.len() as int,
                old(self).n_params as int,
                old(self).self_id as int + 1,
            ),
            (ins matches Instr::Phi(inc) ==> forall|k: int|
                0 <= k < inc@.len() ==> (#[trigger] inc@[k]).0 < old(self).blocks@.len() && old(
                    self,
                ).blocks@[inc@[k].0 as int].terminator == Some(
                    Terminator::Br(old(self).cur() as usize),
                ) && old(self).blocks@[inc@[k].0 as int].instrs@.contains(inc@[k].1)),
        ensures
            final(self).inv(),
            Function::extends(*old(self), *final(self)),
            id == old(self).instrs@.len(),
            final(self).blocks@[final(self).cur()].instrs@.contains(id),
            final(self).instrs@ == old(self).instrs@.push(ins),
            final(self).blocks@.len() == old(self).blocks@.len(),
            final(self).current_basic_block == old(self).current_basic_block,
            final(self).variables@ == old(self).variables@,
            forall|b: int|
                0 <= b < old(self).blocks@.len() && b != old(self).cur()
                    ==> final(self).blocks@[b] == old(self).blocks@[b],
            final(self).blocks@[old(self).cur()].instrs@ == old(self).blocks@[old(
                self,
            ).cur()].instrs@.push(id),
            final(self).blocks@[old(self).cur()].terminator is None,
            final(self).blocks@[old(self).cur()].label@ == old(self).blocks@[old(
                self,
            ).cur()].label@,
    {
        let id = self.instrs.len();
        self.instrs.push(ins);
        let c = match self.current_basic_block {
            Some(c) => c,
            None => 0,  // unreachable under the precondition
        };
        self.blocks[c].instrs.push(id);
        proof {
            assert(self.blocks@[c as int].instrs@.last() == id);
            assert(self.blocks@[c as int].instrs@.contains(id));
        }
        id
    }

    /// Closes the current block with a terminator and clears the insertion
    /// point.
    fn emit_term(&mut self, t: Terminator)
        requires
            old(self).inv(),
            old(self).current_basic_block is Some,
            term_wf(t, old(self).instrs@.len() as int, old(self).blocks@.len() as int),
        ensures
            final(self).inv(),
            Function::extends(*old(self), *final(self)),
            final(self).instrs@ == old(self).instrs@,
            final(self).blocks@.len() == old(self).blocks@.len(),
            final(self).current_basic_block is None,
            final(self).variables@ == old(self).variables@,
            forall|b: int|
                0 <= b < old(self).blocks@.len() && b != old(self).cur()
                    ==> final(self).blocks@[b] == old(self).blocks@[b],
            final(self).blocks@[old(self).cur()].terminator == Some(t),
            final(self).blocks@[old(self).cur()].instrs@ == old(self).blocks@[old(
                self,
            ).cur()].instrs@,
            final(self).blocks@[old(self).cur()].label@ == old(self).blocks@[old(
                self,
            ).cur()].label@,
    {
        let c = match self.current_basic_block {
            Some(c) => c,
            None => 0,  // unreachable under the precondition
        };
        self.blocks[c].terminator = Some(t);
        self.current_basic_block = None;
    }

    /// Appends a fresh, unterminated block and returns its handle; the
    /// insertion point does not move.
    pub fn basic_block(&mut self, name: &str) -> (id: usize)
        requires
            old(self).inv(),
        ensures
            final(self).inv(),
            Function::extends(*old(self), *final(self)),
            id == old(self).blocks@.len(),
            final(self).blocks@.len() == old(self).blocks@.len() + 1,
            final(self).instrs@ == old(self).instrs@,
            final(self).current_basic_block == old(self).current_basic_block,
            final(self).variables@ == old(self).variables@,
            forall|b: int|
                0 <= b < old(self).blocks@.len() ==> final(self).blocks@[b] == old(
                    self,
                ).blocks@[b],
            final(self).blocks@[id as int].terminator is None,
            final(self).blocks@[id as int].instrs@.len() == 0,
            final(self).blocks@[id as int].label@ == name@,
    {
        let id = self.blocks.len();
        self.blocks.push(
            BasicBlock { label: name.to_owned(), instrs: Vec::new(), terminator: None },
        );
        id
    }

    /// Moves the insertion point to an open block.
    pub fn position_at_block_ref(&mut self, block_ref: usize)
        requires
            old(self).inv(),
            block_ref < old(self).blocks@.len(),
            old(self).blocks@[block_ref as int].terminator is None,
        ensures
            final(self).inv(),
            Function::extends(*old(self), *final(self)),
            *final(self) == (Function {
                current_basic_block: Some(block_ref),
                ..*old(self)
            }),
    {
        self.current_basic_block = Some(block_ref);
    }
}


/// The relation every lowering step leaves behind: the invariant holds, the
/// function only grew, and the insertion point is set, either unchanged or
/// on a freshly created block.
pub open spec fn stepped(pre: Function, post: Function) -> bool {
    &&& post.inv()
    &&& Function::extends(pre, post)
    &&& post.current_basic_block is Some
    &&& (post.current_basic_block == pre.current_basic_block || post.cur() >= pre.blocks@.len())
}

/// Membership in an instruction list survives appending.
pub proof fn lemma_contains_preserved(pre: Seq<usize>, post: Seq<usize>, v: usize)
    requires
        pre.len() <= post.len(),
        post.subrange(0, pre.len() as int) == pre,
        pre.contains(v),
    ensures
        post.contains(v),
{
    let i = choose|i: int| 0 <= i < pre.len() && pre[i] == v;
    assert(post.subrange(0, pre.len() as int)[i] == v);
    assert(post[i] == v);
}

/// `extends` is reflexive.
pub proof fn lemma_extends_refl(f: Function)
    ensures
        Function::extends(f, f),
{
    assert(f.instrs@.subrange(0, f.instrs@.len() as int) =~= f.instrs@);
    assert forall|b: int| 0 <= b < f.blocks@.len() implies block_extended(
        #[trigger] f.blocks@[b],
        f.blocks@[b],
    ) by {
        assert(f.blocks@[b].instrs@.subrange(0, f.blocks@[b].instrs@.len() as int)
            =~= f.blocks@[b].instrs@);
    }
}

/// `extends` composes across two steps whose insertion point either stayed
/// or moved to a new block.
pub proof fn lemma_extends_trans(s0: Function, s1: Function, s2: Function)
    requires
        Function::extends(s0, s1),
        Function::extends(s1, s2),
        s1.current_basic_block == s0.current_basic_block || s1.cur() >= s0.blocks@.len()
            || s1.current_basic_block is None,
    ensures
        Function::extends(s0, s2),
{
    assert(s2.instrs@.subrange(0, s0.instrs@.len() as int) =~= s0.instrs@) by {
        assert(forall|i: int|
            0 <= i < s0.instrs@.len() ==> s2.instrs@[i] == s1.instrs@[i] && s1.instrs@[i]
                == s0.instrs@[i]);
    }
    assert forall|b: int| 0 <= b < s0.blocks@.len() implies block_extended(
        #[trigger] s0.blocks@[b],
        s2.blocks@[b],
    ) by {
        assert(block_extended(s0.blocks@[b], s1.blocks@[b]));
        assert(block_extended(s1.blocks@[b], s2.blocks@[b]));
        let n0 = s0.blocks@[b].instrs@.len() as int;
        assert(s2.blocks@[b].instrs@.subrange(0, n0) =~= s0.blocks@[b].instrs@) by {
            assert(forall|j: int|
                0 <= j < n0 ==> s2.blocks@[b].instrs@[j] == s1.blocks@[b].instrs@[j]
                    && s1.blocks@[b].instrs@[j] == s0.blocks@[b].instrs@[j]);
        }
    }
    assert forall|b: int|
        0 <= b < s0.blocks@.len() && b != s0.cur() && (#[trigger] s0.blocks@[b]).terminator
            is None implies s2.blocks@[b].terminator is None by {
        assert(b != s1.cur());
        assert(s1.blocks@[b].terminator is None);
    }
}

/// `stepped` composes.
pub proof fn lemma_stepped_trans(s0: Function, s1: Function, s2: Function)
    requires
        stepped(s0, s1),
        stepped(s1, s2),
    ensures
        stepped(s0, s2),
{
    lemma_extends_trans(s0, s1, s2);
}

impl Function {
    /// Creates a fresh function shell: its parameters stand as the first
    /// instructions, its registry snapshot is taken, and its handle is the
    /// index it will occupy in the module.
    pub fn new(codegen: &Codegen, function_type: Types, name: &str) -> (r: Function)
        requires
            codegen.inv(),
        ensures
            r.inv(),
            r.self_id == codegen.module.functions@.len(),
            r.name@ == name@,
            r.n_params as int == function_type.spec_arity(),
            r.instrs@.len() == r.n_params,
            r.blocks@.len() == 0,
            r.variables@.len() == 0,
            r.current_basic_block is None,
            r.global.0@ == codegen.environment.0@,
            r.fully_terminated(),
    {
        let n_params = match &function_type {
            Types::Func(_, args, _) => args.len(),
            _ => 0,
        };
        let mut instrs: Vec<Instr> = Vec::new();
        let mut i: usize = 0;
        while i < n_params
            invariant
                instrs@.len() == i as int,
                i <= n_params,
                forall|k: int|
                    0 <= k < i ==> ((#[trigger] instrs@[k]) matches Instr::Param(p) && p == k),
            decreases n_params - i,
        {
            instrs.push(Instr::Param(i));
            i = i + 1;
        }
        Function {
            name: name.to_owned(),
            function_type,
            n_params,
            self_id: codegen.module.functions.len(),
            instrs,
            blocks: Vec::new(),
            variables: Vec::new(),
            global: codegen.environment.snapshot(),
            current_basic_block: None,
        }
    }

    /// Ends generation of the function: any block still without a
    /// terminator is closed with a void return, so a finished function is
    /// unconditionally fully terminated.  The lowering closes every block
    /// it opens, so in practice this seals nothing; it makes the module
    /// invariant independent of that fact.
    pub fn seal(&mut self)
        requires
            old(self).inv(),
        ensures
            final(self).inv(),
            final(self).fully_terminated(),
            final(self).current_basic_block is None,
            final(self).instrs@ == old(self).instrs@,
            final(self).blocks@.len() == old(self).blocks@.len(),
            forall|b: int|
                0 <= b < old(self).blocks@.len() && (#[trigger] old(self).blocks@[b]).terminator
                    is Some ==> final(self).blocks@[b] == old(self).blocks@[b],
            final(self).variables@ == old(self).variables@,
            final(self).name@ == old(self).name@,
            final(self).self_id == old(self).self_id,
            final(self).global.0@ == old(self).global.0@,
            final(self).n_params == old(self).n_params,
    {
        self.current_basic_block = None;
        let ghost pre = *self;
        let mut b: usize = 0;
        #[verifier::loop_isolation(false)]
        while b < self.blocks.len()
            invariant
                self.inv(),
                self.blocks@.len() == pre.blocks@.len(),
                self.instrs@ == pre.instrs@,
                self.variables@ == pre.variables@,
                self.current_basic_block is None,
                self.name@ == pre.name@,
                self.self_id == pre.self_id,
                self.global.0@ == pre.global.0@,
                self.n_params == pre.n_params,
                b <= self.blocks@.len(),
                forall|k: int| 0 <= k < b ==> (#[trigger] self.blocks@[k]).terminator is Some,
                forall|k: int|
                    0 <= k < pre.blocks@.len() && (#[trigger] pre.blocks@[k]).terminator
                        is Some ==> self.blocks@[k] == pre.blocks@[k],
            decreases self.blocks@.len() - b,
        {
            let open_block = match self.blocks[b].terminator {
                Some(_) => false,
                None => true,
            };
            if open_block {
                self.blocks[b].terminator = Some(Terminator::RetVoid);
            }
            b = b + 1;
        }
    }

    /// Emits an unconditional branch, closing the current block.
    pub fn build_br(&mut self, target: usize)
        requires
            old(self).inv(),
            old(self).current_basic_block is Some,
            target < old(self).blocks@.len(),
        ensures
            final(self).inv(),
            Function::extends(*old(self), *final(self)),
            final(self).instrs@ == old(self).instrs@,
            final(self).blocks@.len() == old(self).blocks@.len(),
            final(self).current_basic_block is None,
            final(self).variables@ == old(self).variables@,
            forall|b: int|
                0 <= b < old(self).blocks@.len() && b != old(self).cur()
                    ==> final(self).blocks@[b] == old(self).blocks@[b],
            final(self).blocks@[old(self).cur()].terminator == Some(Terminator::Br(target)),
    {
        self.emit_term(Terminator::Br(target));
    }

    /// Emits a two-way conditional branch, closing the current block.
    pub fn build_cond_br(&mut self, condition: usize, then_block: usize, else_block: usize)
        requires
            old(self).inv(),
            old(self).current_basic_block is Some,
            condition < old(self).instrs@.len(),
            then_block < old(self).blocks@.len(),
            else_block < old(self).blocks@.len(),
        ensures
            final(self).inv(),
            Function::extends(*old(self), *final(self)),
            final(self).instrs@ == old(self).instrs@,
            final(self).blocks@.len() == old(self).blocks@.len(),
            final(self).current_basic_block is None,
            final(self).variables@ == old(self).variables@,
            forall|b: int|
                0 <= b < old(self).blocks@.len() && b != old(self).cur()
                    ==> final(self).blocks@[b] == old(self).blocks@[b],
            final(self).blocks@[old(self).cur()].terminator == Some(
                Terminator::CondBr(condition, then_block, else_block),
            ),
    {
        self.emit_term(Terminator::CondBr(condition, then_block, else_block));
    }

    /// Emits a value return, closing the current block.
    pub fn build_ret(&mut self, value: usize)
        requires
            old(self).inv(),
            old(self).current_basic_block is Some,
            value < old(self).instrs@.len(),
        ensures
            final(self).inv(),
            Function::extends(*old(self), *final(self)),
            final(self).blocks@.len() == old(self).blocks@.len(),
            final(self).instrs@ == old(self).instrs@,
            final(self).current_basic_block is None,
            final(self).variables@ == old(self).variables@,
            forall|b: int|
                0 <= b < old(self).blocks@.len() && b != old(self).cur()
                    ==> final(self).blocks@[b] == old(self).blocks@[b],
            final(self).blocks@[old(self).cur()].terminator == Some(Terminator::Ret(value)),
    {
        self.emit_term(Terminator::Ret(value));
    }

    /// Emits a void return, closing the current block.
    pub fn build_ret_void(&mut self)
        requires
            old(self).inv(),
            old(self).current_basic_block is Some,
        ensures
            final(self).inv(),
            Function::extends(*old(self), *final(self)),
            final(self).blocks@.len() == old(self).blocks@.len(),
            final(self).instrs@ == old(self).instrs@,
            final(self).current_basic_block is None,
            final(self).variables@ == old(self).variables@,
            forall|b: int|
                0 <= b < old(self).blocks@.len() && b != old(self).cur()
                    ==> final(self).blocks@[b] == old(self).blocks@[b],
            final(self).blocks@[old(self).cur()].terminator == Some(Terminator::RetVoid),
    {
        self.emit_term(Terminator::RetVoid);
    }

    /// Emits a signed integer constant.
    pub fn build_const_int(&mut self, value: i64) -> (id: usize)
        requires
            old(self).inv(),
            old(self).current_basic_block is Some,
        ensures
            stepped(*old(self), *final(self)),
            final(self).current_basic_block == old(self).current_basic_block,
            id == old(self).instrs@.len(),
            final(self).blocks@[final(self).cur()].instrs@.contains(id),
            final(self).variables@ == old(self).variables@,
            final(self).instrs@.len() == old(self).instrs@.len() + 1,
            final(self).instrs@ == old(self).instrs@.push(Instr::ConstInt(value)),
            final(self).blocks@.len() == old(self).blocks@.len(),
            forall|b: int|
                0 <= b < old(self).blocks@.len() && b != old(self).cur()
                    ==> final(self).blocks@[b] == old(self).blocks@[b],
    {
        self.emit(Instr::ConstInt(value))
    }

    /// Emits a boolean constant.
    pub fn build_const_bool(&mut self, value: bool) -> (id: usize)
        requires
            old(self).inv(),
            old(self).current_basic_block is Some,
        ensures
            stepped(*old(self), *final(self)),
            final(self).current_basic_block == old(self).current_basic_block,
            id == old(self).instrs@.len(),
            final(self).blocks@[final(self).cur()].instrs@.contains(id),
            final(self).variables@ == old(self).variables@,
            final(self).instrs@.len() == old(self).instrs@.len() + 1,
            final(self).blocks@.len() == old(self).blocks@.len(),
            final(self).instrs@ == old(self).instrs@.push(Instr::ConstBool(value)),
    {
        self.emit(Instr::ConstBool(value))
    }

    /// Materializes a string constant as an opaque handle.
    pub fn build_global_string(&mut self, value: &str) -> (id: usize)
        requires
            old(self).inv(),
            old(self).current_basic_block is Some,
        ensures
            stepped(*old(self), *final(self)),
            final(self).current_basic_block == old(self).current_basic_block,
            id == old(self).instrs@.len(),
            final(self).blocks@[final(self).cur()].instrs@.contains(id),
            final(self).variables@ == old(self).variables@,
            (final(self).instrs@.last() matches Instr::GlobalString(g) && g@ == value@),
            final(self).instrs@.len() == old(self).instrs@.len() + 1,
            final(self).instrs@.len() == old(self).instrs@.len() + 1,
            final(self).blocks@.len() == old(self).blocks@.len(),
    {
        self.emit(Instr::GlobalString(value.to_owned()))
    }

    /// Emits the void sentinel constant.
    pub fn build_null(&mut self, null_type: Types) -> (id: usize)
        requires
            old(self).inv(),
            old(self).current_basic_block is Some,
        ensures
            stepped(*old(self), *final(self)),
            final(self).current_basic_block == old(self).current_basic_block,
            id == old(self).instrs@.len(),
            final(self).blocks@[final(self).cur()].instrs@.contains(id),
            final(self).variables@ == old(self).variables@,
            final(self).instrs@ == old(self).instrs@.push(Instr::ConstNull),
            final(self).instrs@.len() == old(self).instrs@.len() + 1,
            final(self).blocks@.len() == old(self).blocks@.len(),
    {
        let _ = null_type;
        self.emit(Instr::ConstNull)
    }

    /// Allocates addressable stack storage, named for readability.
    pub fn build_stack_ptr(&mut self, stack_type: Types, name: &str) -> (id: usize)
        requires
            old(self).inv(),
            old(self).current_basic_block is Some,
        ensures
            stepped(*old(self), *final(self)),
            final(self).current_basic_block == old(self).current_basic_block,
            id == old(self).instrs@.len(),
            final(self).blocks@[final(self).cur()].instrs@.contains(id),
            final(self).instrs@.len() == old(self).instrs@.len() + 1,
            final(self).blocks@.len() == old(self).blocks@.len(),
            final(self).variables@ == old(self).variables@,
            (final(self).instrs@.last() matches Instr::Alloca(nm) && nm@ == name@),
            final(self).instrs@.len() == old(self).instrs@.len() + 1,
    {
        let _ = stack_type;
        self.emit(Instr::Alloca(name.to_owned()))
    }

    /// Stores a value into a storage slot.
    pub fn build_store(&mut self, value: usize, ptr: usize) -> (id: usize)
        requires
            old(self).inv(),
            old(self).current_basic_block is Some,
            value < old(self).instrs@.len(),
            ptr < old(self).instrs@.len(),
        ensures
            stepped(*old(self), *final(self)),
            final(self).current_basic_block == old(self).current_basic_block,
            id == old(self).instrs@.len(),
            final(self).blocks@[final(self).cur()].instrs@.contains(id),
            final(self).instrs@.len() == old(self).instrs@.len() + 1,
            final(self).blocks@.len() == old(self).blocks@.len(),
            final(self).variables@ == old(self).variables@,
            final(self).instrs@ == old(self).instrs@.push(Instr::Store(value, ptr)),
    {
        self.emit(Instr::Store(value, ptr))
    }

    /// Loads the value stored in a storage slot.
    pub fn build_load(&mut self, ptr: usize) -> (id: usize)
        requires
            old(self).inv(),
            old(self).current_basic_block is Some,
            ptr < old(self).instrs@.len(),
        ensures
            stepped(*old(self), *final(self)),
            final(self).current_basic_block == old(self).current_basic_block,
            id == old(self).instrs@.len(),
            final(self).blocks@[final(self).cur()].instrs@.contains(id),
            final(self).variables@ == old(self).variables@,
            final(self).instrs@.len() == old(self).instrs@.len() + 1,
            final(self).blocks@.len() == old(self).blocks@.len(),
            final(self).instrs@ == old(self).instrs@.push(Instr::Load(ptr)),
    {
        self.emit(Instr::Load(ptr))
    }

    /// Emits a signed comparison.
    pub fn build_icmp(&mut self, op: IntPredicate, left: usize, right: usize) -> (id: usize)
        requires
            old(self).inv(),
            old(self).current_basic_block is Some,
            left < old(self).instrs@.len(),
            right < old(self).instrs@.len(),
        ensures
            stepped(*old(self), *final(self)),
            final(self).current_basic_block == old(self).current_basic_block,
            id == old(self).instrs@.len(),
            final(self).blocks@[final(self).cur()].instrs@.contains(id),
            final(self).variables@ == old(self).variables@,
            final(self).instrs@.len() == old(self).instrs@.len() + 1,
            final(self).blocks@.len() == old(self).blocks@.len(),
    {
        self.emit(Instr::Icmp(op, left, right))
    }

    /// Emits a phi node in the current block.  Every incoming pair must
    /// name a predecessor that already branches unconditionally to this
    /// block; this is what keeps phi operands tied to the blocks control
    /// can actually arrive from.
    pub fn build_phi(&mut self, phi_type: Types, incoming: Vec<(usize, usize)>) -> (id: usize)
        requires
            old(self).inv(),
            old(self).current_basic_block is Some,
            forall|k: int|
                0 <= k < incoming@.len() ==> (#[trigger] incoming@[k]).0 < old(
                    self,
                ).blocks@.len() && incoming@[k].1 < old(self).instrs@.len() && old(
                    self,
                ).blocks@[incoming@[k].0 as int].terminator == Some(
                    Terminator::Br(old(self).cur() as usize),
                ) && old(self).blocks@[incoming@[k].0 as int].instrs@.contains(
                    incoming@[k].1,
                ),
        ensures
            stepped(*old(self), *final(self)),
            final(self).current_basic_block == old(self).current_basic_block,
            id == old(self).instrs@.len(),
            final(self).blocks@[final(self).cur()].instrs@.contains(id),
            final(self).instrs@ == old(self).instrs@.push(Instr::Phi(incoming)),
            final(self).variables@ == old(self).variables@,
            final(self).instrs@.len() == old(self).instrs@.len() + 1,
            final(self).blocks@.len() == old(self).blocks@.len(),
    {
        let _ = phi_type;
        self.emit(Instr::Phi(incoming))
    }

    /// Emits a call to this function itself, the sanctioned forward
    /// reference for self-recursion.
    pub fn call(&mut self, args: Vec<usize>, name: &str) -> (id: usize)
        requires
            old(self).inv(),
            old(self).current_basic_block is Some,
            forall|k: int| 0 <= k < args@.len() ==> #[trigger] args@[k] < old(self).instrs@.len(),
        ensures
            stepped(*old(self), *final(self)),
            final(self).current_basic_block == old(self).current_basic_block,
            id == old(self).instrs@.len(),
            final(self).blocks@[final(self).cur()].instrs@.contains(id),
            final(self).variables@ == old(self).variables@,
            final(self).instrs@.len() == old(self).instrs@.len() + 1,
            final(self).blocks@.len() == old(self).blocks@.len(),
            final(self).instrs@ == old(self).instrs@.push(
                Instr::Call(old(self).self_id, args),
            ),
    {
        let _ = name;
        let callee = self.self_id;
        self.emit(Instr::Call(callee, args))
    }

    /// Emits a call to a named function.  A call to the function being
    /// generated uses its own, not yet finalized handle; any other name is
    /// resolved in the registry snapshot, and an unresolved name is the
    /// error that carries it.
    pub fn call_other(&mut self, function_name: &String, args: Vec<usize>, name: &str) -> (r:
        Result<usize, CodegenError>)
        requires
            old(self).inv(),
            old(self).current_basic_block is Some,
            forall|k: int| 0 <= k < args@.len() ==> #[trigger] args@[k] < old(self).instrs@.len(),
        ensures
            r is Ok <==> (function_name@ == old(self).name@ || env_lookup(
                old(self).global.0@,
                function_name@,
            ) is Some),
            r matches Ok(id) ==> {
                &&& stepped(*old(self), *final(self))
                &&& final(self).current_basic_block == old(self).current_basic_block
                &&& id == old(self).instrs@.len()
                &&& final(self).blocks@[final(self).cur()].instrs@.contains(id)
                &&& final(self).variables@ == old(self).variables@
                &&& (function_name@ == old(self).name@ ==> final(self).instrs@ == old(
                    self,
                ).instrs@.push(Instr::Call(old(self).self_id, args)))
                &&& (function_name@ != old(self).name@ ==> final(self).instrs@ == old(
                    self,
                ).instrs@.push(
                    Instr::Call(
                        env_lookup(old(self).global.0@, function_name@).unwrap(),
                        args,
                    ),
                ))
            },
            r matches Err(e) ==> {
                &&& *final(self) == *old(self)
                &&& e matches CodegenError::UndeclaredFunction(n) && n@ == function_name@
                &&& function_name@ != old(self).name@
                &&& env_lookup(old(self).global.0@, function_name@) is None
            },
    {
        let _ = name;
        let callee: usize;
        if *function_name == self.name {
            callee = self.self_id;
        } else {
            match lookup(&self.global.0, function_name) {
                Some(id) => {
                    proof {
                        lemma_env_lookup_in(self.global.0@, function_name@);
                    }
                    callee = id;
                },
                None => {
                    return Err(CodegenError::UndeclaredFunction(function_name.clone()));
                },
            }
        }
        Ok(self.emit(Instr::Call(callee, args)))
    }

    /// Lowers one statement and returns its value handle.  A variable
    /// declaration evaluates its initializer, allocates fresh storage,
    /// stores the value, and re-binds the name, overwriting any earlier
    /// binding; its value is the initializer's value, so a block ending in
    /// a declaration evaluates to the bound value.  An empty statement
    /// yields the void sentinel.
    pub fn build_statement(&mut self, statement: &Statement) -> (r: Result<usize, CodegenError>)
        requires
            old(self).inv(),
            old(self).current_basic_block is Some,
        ensures
            stepped(*old(self), *final(self)),
            r matches Ok(id) ==> (id < final(self).instrs@.len()
                && final(self).blocks@[final(self).cur()].instrs@.contains(id)),
            (match check_stmt(
                *statement,
                names_of(old(self).variables@),
                names_of(old(self).global.0@),
                old(self).name@,
            ) {
                Some(ns) => r is Ok && names_of(final(self).variables@) == ns,
                None => r is Err,
            }),
            r matches Ok(id) ==> (final(self).instrs@.len() == old(self).instrs@.len()
                + stmt_size(*statement) && id as int == stmt_result(
                *statement,
                old(self).instrs@.len() as int,
            )),
            (match statement {
                Statement::Empty => r matches Ok(id) ==> (id == old(self).instrs@.len()
                    && final(self).instrs@[id as int] is ConstNull),
                Statement::VarDecl(vd) => r matches Ok(id) ==> ({
                    let n = final(self).instrs@.len();
                    &&& n >= old(self).instrs@.len() + 2
                    &&& (final(self).instrs@[n - 2] matches Instr::Alloca(nm) && nm@
                        == vd.identifier@)
                    &&& final(self).instrs@[n - 1] matches Instr::Store(v, p) && v == id && p
                        == n - 2
                    &&& env_lookup(final(self).variables@, vd.identifier@) == Some(
                        (n - 2) as usize,
                    )
                }),
                Statement::Expression(_) => true,
            }),
        decreases statement,
    {
        match statement {
            Statement::VarDecl(var_decl) => {
                let value = match self.build_expression(&var_decl.expression) {
                    Ok(v) => v,
                    Err(e) => {
                        return Err(e);
                    },
                };
                let ghost s1 = *self;
                let ptr = self.build_stack_ptr(Types::Int, var_decl.identifier.as_str());
                let ghost s2 = *self;
                self.build_store(value, ptr);
                let ghost s3 = *self;
                proof {
                    assert(self.instrs@.last() matches Instr::Store(v2, p2) && v2 == value && p2
                        == ptr);
                    assert(self.instrs@[ptr as int] == s2.instrs@[ptr as int]);
                    assert(self.instrs@[ptr as int] matches Instr::Alloca(nm) && nm@
                        == var_decl.identifier@);
                }
                self.assign(&var_decl.identifier, ptr);
                proof {
                    lemma_names_push(s3.variables@, (var_decl.identifier, ptr));
                    assert(names_of(self.variables@) =~= names_of(s1.variables@).push(
                        var_decl.identifier@,
                    ));
                    lemma_stepped_trans(*old(self), s1, s2);
                    lemma_stepped_trans(*old(self), s2, s3);
                    lemma_extends_refl(s3);
                    lemma_stepped_trans(*old(self), s3, *self);
                    lemma_contains_preserved(
                        s1.blocks@[s1.cur()].instrs@,
                        s2.blocks@[s1.cur()].instrs@,
                        value,
                    );
                    lemma_contains_preserved(
                        s2.blocks@[s1.cur()].instrs@,
                        s3.blocks@[s1.cur()].instrs@,
                        value,
                    );
                }
                Ok(value)
            },
            Statement::Expression(expr) => self.build_expression(expr),
            Statement::Empty => {
                let id = self.build_null(Types::Void);
                proof {
                    assert(self.instrs@[id as int] is ConstNull);
                }
                Ok(id)
            },
        }
    }

    /// Lowers an expression and returns its value handle.
    pub fn build_expression(&mut self, expr: &Expression) -> (r: Result<usize, CodegenError>)
        requires
            old(self).inv(),
            old(self).current_basic_block is Some,
        ensures
            stepped(*old(self), *final(self)),
            r matches Ok(id) ==> (id < final(self).instrs@.len()
                && final(self).blocks@[final(self).cur()].instrs@.contains(id)),
            (match check_expr(
                *expr,
                names_of(old(self).variables@),
                names_of(old(self).global.0@),
                old(self).name@,
            ) {
                Some(ns) => r is Ok && names_of(final(self).variables@) == ns,
                None => r is Err,
            }),
            r matches Ok(id) ==> (final(self).instrs@.len() == old(self).instrs@.len()
                + expr_size(*expr) && id as int == expr_result(
                *expr,
                old(self).instrs@.len() as int,
            )),
            (match expr {
                Expression::Value(Value::Literal(Literal::Number(Number::Int(x)))) => r
                    matches Ok(id) && id == old(self).instrs@.len() && final(self).instrs@
                    == old(self).instrs@.push(Instr::ConstInt(*x)),
                Expression::Value(Value::Literal(Literal::Boolean(b))) => r matches Ok(id)
                    && id == old(self).instrs@.len() && final(self).instrs@ == old(
                    self,
                ).instrs@.push(Instr::ConstBool(*b)),
                Expression::Value(Value::Variable(n)) => (r is Ok <==> env_lookup(
                    old(self).variables@,
                    n@,
                ) is Some) && (r matches Err(e) ==> (e matches
                    CodegenError::UndeclaredVariable(m) && m@ == n@)),
                _ => true,
            }),
            (match expr {
                Expression::Addition(l2, r2) => r matches Ok(id) ==> (final(self).instrs@[id as int]
                    matches Instr::Add(a, b) && a as int == expr_result(
                    **l2,
                    old(self).instrs@.len() as int,
                ) && b as int == expr_result(
                    **r2,
                    old(self).instrs@.len() + expr_size(**l2) as int,
                )),
                Expression::Subtraction(l2, r2) => r matches Ok(id) ==> (final(self).instrs@[id as int]
                    matches Instr::Sub(a, b) && a as int == expr_result(
                    **l2,
                    old(self).instrs@.len() as int,
                ) && b as int == expr_result(
                    **r2,
                    old(self).instrs@.len() + expr_size(**l2) as int,
                )),
                Expression::Multiplication(l2, r2) => r matches Ok(id) ==> (final(self).instrs@[id as int]
                    matches Instr::Mul(a, b) && a as int == expr_result(
                    **l2,
                    old(self).instrs@.len() as int,
                ) && b as int == expr_result(
                    **r2,
                    old(self).instrs@.len() + expr_size(**l2) as int,
                )),
                Expression::Division(l2, r2) => r matches Ok(id) ==> (final(self).instrs@[id as int]
                    matches Instr::SDiv(a, b) && a as int == expr_result(
                    **l2,
                    old(self).instrs@.len() as int,
                ) && b as int == expr_result(
                    **r2,
                    old(self).instrs@.len() + expr_size(**l2) as int,
                )),
                Expression::Modulus(l2, r2) => r matches Ok(id) ==> (final(self).instrs@[id as int]
                    matches Instr::SRem(a, b) && a as int == expr_result(
                    **l2,
                    old(self).instrs@.len() as int,
                ) && b as int == expr_result(
                    **r2,
                    old(self).instrs@.len() + expr_size(**l2) as int,
                )),
                Expression::Equality(l2, r2) => r matches Ok(id) ==> (final(self).instrs@[id as int]
                    matches Instr::Icmp(p, a, b) && p == IntPredicate::Eq && a as int
                    == expr_result(**l2, old(self).instrs@.len() as int) && b as int
                    == expr_result(**r2, old(self).instrs@.len() + expr_size(**l2) as int)),
                Expression::NotEq(l2, r2) => r matches Ok(id) ==> (final(self).instrs@[id as int]
                    matches Instr::Icmp(p, a, b) && p == IntPredicate::Ne && a as int
                    == expr_result(**l2, old(self).instrs@.len() as int) && b as int
                    == expr_result(**r2, old(self).instrs@.len() + expr_size(**l2) as int)),
                Expression::LessThan(l2, r2) => r matches Ok(id) ==> (final(self).instrs@[id as int]
                    matches Instr::Icmp(p, a, b) && p == IntPredicate::Slt && a as int
                    == expr_result(**l2, old(self).instrs@.len() as int) && b as int
                    == expr_result(**r2, old(self).instrs@.len() + expr_size(**l2) as int)),
                Expression::GreaterThan(l2, r2) => r matches Ok(id) ==> (final(self).instrs@[id as int]
                    matches Instr::Icmp(p, a, b) && p == IntPredicate::Sgt && a as int
                    == expr_result(**l2, old(self).instrs@.len() as int) && b as int
                    == expr_result(**r2, old(self).instrs@.len() + expr_size(**l2) as int)),
                Expression::LessEq(l2, r2) => r matches Ok(id) ==> (final(self).instrs@[id as int]
                    matches Instr::Icmp(p, a, b) && p == IntPredicate::Sle && a as int
                    == expr_result(**l2, old(self).instrs@.len() as int) && b as int
                    == expr_result(**r2, old(self).instrs@.len() + expr_size(**l2) as int)),
                Expression::GreaterEq(l2, r2) => r matches Ok(id) ==> (final(self).instrs@[id as int]
                    matches Instr::Icmp(p, a, b) && p == IntPredicate::Sge && a as int
                    == expr_result(**l2, old(self).instrs@.len() as int) && b as int
                    == expr_result(**r2, old(self).instrs@.len() + expr_size(**l2) as int)),
                Expression::And(l2, r2) => r matches Ok(id) ==> (final(self).instrs@[id as int]
                    matches Instr::And(a, b) && a as int == expr_result(
                    **l2,
                    old(self).instrs@.len() as int,
                ) && b as int == expr_result(
                    **r2,
                    old(self).instrs@.len() + expr_size(**l2) as int,
                )),
                Expression::Or(l2, r2) => r matches Ok(id) ==> (final(self).instrs@[id as int]
                    matches Instr::Or(a, b) && a as int == expr_result(
                    **l2,
                    old(self).instrs@.len() as int,
                ) && b as int == expr_result(
                    **r2,
                    old(self).instrs@.len() + expr_size(**l2) as int,
                )),
                Expression::Not(x2) => r matches Ok(id) ==> (final(self).instrs@[id as int]
                    matches Instr::Not(a) && a as int == expr_result(
                    **x2,
                    old(self).instrs@.len() as int,
                )),
                Expression::Value(Value::Literal(Literal::String(st))) => r matches Ok(id)
                    ==> (final(self).instrs@[id as int] matches Instr::GlobalString(gs) && gs@
                    == st@),
                Expression::Value(Value::Variable(n2)) => r matches Ok(id)
                    ==> (final(self).instrs@[id as int] matches Instr::Load(p) && Some(p)
                    == env_lookup(old(self).variables@, n2@)),
                Expression::Value(Value::FunctionCall(f)) => r matches Ok(id)
                    ==> (final(self).instrs@[id as int] matches Instr::Call(callee, a)
                    && a@.len() == f.arguments@.len()
                    && (f.name@ == old(self).name@ ==> callee == old(self).self_id)
                    && (forall|k: int|
                    0 <= k < a@.len() ==> (#[trigger] a@[k]) as int == expr_result(
                        f.arguments@[k],
                        old(self).instrs@.len() + args_sizes(f.arguments@, 0) as int
                            - args_sizes(f.arguments@, k) as int,
                    ))),
                _ => true,
            }),
        decreases expr,
    {
        match expr {
            Expression::Addition(left, right)
            | Expression::Subtraction(left, right)
            | Expression::Multiplication(left, right)
            | Expression::Division(left, right)
            | Expression::Modulus(left, right)
            | Expression::Equality(left, right)
            | Expression::NotEq(left, right)
            | Expression::LessThan(left, right)
            | Expression::GreaterThan(left, right)
            | Expression::LessEq(left, right)
            | Expression::GreaterEq(left, right)
            | Expression::And(left, right)
            | Expression::Or(left, right) => {
                let l = match self.build_expression(&**left) {
                    Ok(v) => v,
                    Err(e) => {
                        return Err(e);
                    },
                };
                let ghost s1 = *self;
                let rr = match self.build_expression(&**right) {
                    Ok(v) => v,
                    Err(e) => {
                        proof {
                            lemma_stepped_trans(*old(self), s1, *self);
                        }
                        return Err(e);
                    },
                };
                let ghost s2 = *self;
                let ins = match expr {
                    Expression::Addition(_, _) => Instr::Add(l, rr),
                    Expression::Subtraction(_, _) => Instr::Sub(l, rr),
                    Expression::Multiplication(_, _) => Instr::Mul(l, rr),
                    Expression::Division(_, _) => Instr::SDiv(l, rr),
                    Expression::Modulus(_, _) => Instr::SRem(l, rr),
                    Expression::Equality(_, _) => Instr::Icmp(IntPredicate::Eq, l, rr),
                    Expression::NotEq(_, _) => Instr::Icmp(IntPredicate::Ne, l, rr),
                    Expression::LessThan(_, _) => Instr::Icmp(IntPredicate::Slt, l, rr),
                    Expression::GreaterThan(_, _) => Instr::Icmp(IntPredicate::Sgt, l, rr),
                    Expression::LessEq(_, _) => Instr::Icmp(IntPredicate::Sle, l, rr),
                    Expression::GreaterEq(_, _) => Instr::Icmp(IntPredicate::Sge, l, rr),
                    Expression::And(_, _) => Instr::And(l, rr),
                    _ => Instr::Or(l, rr),
                };
                let id = self.emit(ins);
                proof {
                    lemma_stepped_trans(*old(self), s1, s2);
                    lemma_stepped_trans(*old(self), s2, *self);
                    assert(self.instrs@[id as int] == ins);
                }
                Ok(id)
            },
            Expression::Not(inner) => {
                let v = match self.build_expression(&**inner) {
                    Ok(v) => v,
                    Err(e) => {
                        return Err(e);
                    },
                };
                let ghost s1 = *self;
                let id = self.emit(Instr::Not(v));
                proof {
                    lemma_stepped_trans(*old(self), s1, *self);
                }
                Ok(id)
            },
            Expression::If(if_expression) => self.build_if_expression(&**if_expression),
            Expression::Block(block) => self.build_block(block),
            Expression::Value(value) => {
                match value {
                    Value::Literal(Literal::Number(Number::Int(lit))) => Ok(
                        self.build_const_int(*lit),
                    ),
                    Value::Literal(Literal::Boolean(boolean)) => Ok(
                        self.build_const_bool(*boolean),
                    ),
                    Value::Literal(Literal::String(string)) => Ok(
                        self.build_global_string(string.as_str()),
                    ),
                    Value::Variable(name) => {
                        proof {
                            lemma_lookup_is_bound(self.variables@, name@);
                        }
                        match self.var(name) {
                            Some(ptr) => {
                                proof {
                                    lemma_env_lookup_in(self.variables@, name@);
                                    lemma_extends_refl(*self);
                                }
                                let ghost s1 = *self;
                                let id = self.build_load(ptr);
                                proof {
                                    lemma_stepped_trans(*old(self), s1, *self);
                                }
                                Ok(id)
                            },
                            None => {
                                proof {
                                    lemma_extends_refl(*self);
                                }
                                Err(CodegenError::UndeclaredVariable(name.clone()))
                            },
                        }
                    },
                    Value::FunctionCall(func) => {
                        let mut args: Vec<usize> = Vec::new();
                        let mut i: usize = 0;
                        proof {
                            lemma_extends_refl(*self);
                        }
                        let ghost vars0 = names_of(old(self).variables@);
                        let ghost env0 = names_of(old(self).global.0@);
                        let ghost sn0 = old(self).name@;
                        let ghost base_args = self.instrs@.len() as int;
                        #[verifier::loop_isolation(false)]
                        while i < func.arguments.len()
                            invariant
                                old(self).inv(),
                                stepped(*old(self), *self),
                                i <= func.arguments@.len(),
                                args@.len() == i as int,
                                check_args(func.arguments@, 0, vars0, env0, sn0)
                                    == check_args(
                                    func.arguments@,
                                    i as int,
                                    names_of(self.variables@),
                                    env0,
                                    sn0,
                                ),
                                self.instrs@.len() as int == base_args + args_sizes(
                                    func.arguments@,
                                    0,
                                ) - args_sizes(func.arguments@, i as int),
                                forall|k: int|
                                    0 <= k < args@.len() ==> #[trigger] args@[k]
                                        < self.instrs@.len(),
                                forall|k: int|
                                    0 <= k < args@.len() ==> (#[trigger] args@[k]) as int
                                        == expr_result(
                                        func.arguments@[k],
                                        base_args + args_sizes(func.arguments@, 0) as int
                                            - args_sizes(func.arguments@, k) as int,
                                    ),
                            decreases func.arguments@.len() - i,
                        {
                            proof {
                                assert(*value == expr->Value_0);
                                assert(*func == value->FunctionCall_0);
                                assert(decreases_to!(*expr => expr->Value_0));
                                assert(decreases_to!(*value => value->FunctionCall_0));
                                assert(decreases_to!(*func => func.arguments));
                                assert(decreases_to!(func.arguments => func.arguments@));
                                assert(decreases_to!(func.arguments@ => func.arguments@[i as int]));
                            }
                            let ghost sp = *self;
                            let a = match self.build_expression(&func.arguments[i]) {
                                Ok(v) => v,
                                Err(e) => {
                                    proof {
                                        lemma_stepped_trans(*old(self), sp, *self);
                                    }
                                    return Err(e);
                                },
                            };
                            proof {
                                lemma_stepped_trans(*old(self), sp, *self);
                            }
                            args.push(a);
                            i = i + 1;
                        }
                        let ghost sp = *self;
                        proof {
                            lemma_lookup_is_bound(self.global.0@, func.name@);
                        }
                        let r = self.call_other(&func.name, args, "");
                        proof {
                            if r is Ok {
                                lemma_stepped_trans(*old(self), sp, *self);
                            }
                        }
                        r
                    },
                }
            },
        }
    }

    /// Lowers a block: every statement but the last for effect only; the
    /// block's value is the last statement's value.  An empty block cannot
    /// be lowered and is reported as an unsupported construct.
    pub fn build_block(&mut self, block: &Block) -> (r: Result<usize, CodegenError>)
        requires
            old(self).inv(),
            old(self).current_basic_block is Some,
        ensures
            stepped(*old(self), *final(self)),
            r matches Ok(id) ==> (id < final(self).instrs@.len()
                && final(self).blocks@[final(self).cur()].instrs@.contains(id)),
            (match check_block(
                *block,
                names_of(old(self).variables@),
                names_of(old(self).global.0@),
                old(self).name@,
            ) {
                Some(ns) => r is Ok && names_of(final(self).variables@) == ns,
                None => r is Err,
            }),
            r matches Ok(id) ==> (final(self).instrs@.len() == old(self).instrs@.len()
                + block_size(*block) && id as int == block_result(
                *block,
                old(self).instrs@.len() as int,
            )),
        decreases block,
    {
        let ghost vars0 = names_of(old(self).variables@);
        let ghost env0 = names_of(old(self).global.0@);
        let ghost sn0 = old(self).name@;
        let n = block.0.len();
        if n == 0 {
            proof {
                lemma_extends_refl(*self);
            }
            return Err(CodegenError::new("Empty block"));
        }
        let mut i: usize = 0;
        proof {
            lemma_extends_refl(*self);
        }
        #[verifier::loop_isolation(false)]
        let ghost base = old(self).instrs@.len() as int;
        #[verifier::loop_isolation(false)]
        while i < n - 1
            invariant
                old(self).inv(),
                stepped(*old(self), *self),
                i <= n - 1,
                n == block.0@.len(),
                check_stmts(block.0@, 0, vars0, env0, sn0) == check_stmts(
                    block.0@,
                    i as int,
                    names_of(self.variables@),
                    env0,
                    sn0,
                ),
                self.instrs@.len() as int == base + stmts_sizes(block.0@, 0) - stmts_sizes(
                    block.0@,
                    i as int,
                ),
                stmts_results(block.0@, 0, base) == stmts_results(
                    block.0@,
                    i as int,
                    self.instrs@.len() as int,
                ),
            decreases n - 1 - i,
        {
            let ghost sp = *self;
            match self.build_statement(&block.0[i]) {
                Ok(_) => {},
                Err(e) => {
                    proof {
                        lemma_stepped_trans(*old(self), sp, *self);
                    }
                    return Err(e);
                },
            }
            proof {
                lemma_stepped_trans(*old(self), sp, *self);
            }
            i = i + 1;
        }
        let ghost sp = *self;
        let r = self.build_statement(&block.0[n - 1]);
        proof {
            lemma_stepped_trans(*old(self), sp, *self);
            let pre_names = names_of(sp.variables@);
            if r is Ok {
                let ns = names_of(self.variables@);
                assert(check_stmt(block.0@[n - 1], pre_names, env0, sn0) == Some(ns));
                assert(check_stmts(block.0@, n as int, ns, env0, sn0) == Some(ns));
                assert(check_stmts(block.0@, n - 1, pre_names, env0, sn0) == Some(ns));
                let lenp = sp.instrs@.len() as int;
                assert(stmts_sizes(block.0@, n as int) == 0);
                assert(stmts_sizes(block.0@, n - 1) == stmt_size(block.0@[n - 1]));
                assert(stmts_results(block.0@, n - 1, lenp) == stmt_result(
                    block.0@[n - 1],
                    lenp,
                ));
            } else {
                assert(check_stmts(block.0@, n - 1, pre_names, env0, sn0) is None);
            }
        }
        r
    }

    /// Lowers an if-expression into a diamond, or a chain for else-ifs.
    ///
    /// The merge block is pre-allocated; the condition is evaluated in the
    /// originating block; the then branch and the else branch (a block, a
    /// recursive if, or a synthesized noop yielding the zero sentinel) each
    /// end with a branch to the merge block; the conditional branch closes
    /// the block where the condition's value lives; and at the merge block
    /// a phi joins the branch values into the expression's result.
    #[verifier::rlimit(60)]
    pub fn build_if_expression(&mut self, if_expression: &IfExpression) -> (r: Result<
        usize,
        CodegenError,
    >)
        requires
            old(self).inv(),
            old(self).current_basic_block is Some,
        ensures
            stepped(*old(self), *final(self)),
            r matches Ok(id) ==> (id < final(self).instrs@.len()
                && final(self).blocks@[final(self).cur()].instrs@.contains(id)),
            (match check_if(
                *if_expression,
                names_of(old(self).variables@),
                names_of(old(self).global.0@),
                old(self).name@,
            ) {
                Some(ns) => r is Ok && names_of(final(self).variables@) == ns,
                None => r is Err,
            }),
            r matches Ok(id) ==> (final(self).instrs@.len() == old(self).instrs@.len()
                + if_size(*if_expression) && id as int == old(self).instrs@.len()
                + if_size(*if_expression) - 1),
            r matches Ok(id) ==> ({
                let base = old(self).instrs@.len() as int;
                let cs = expr_size(if_expression.condition) as int;
                let bs = block_size(if_expression.body) as int;
                &&& final(self).cur() == old(self).blocks@.len()
                &&& (match final(self).instrs@[id as int] {
                    Instr::Phi(inc) => {
                        &&& inc@.len() == 2
                        &&& inc@[0].1 as int == block_result(if_expression.body, base + cs)
                        &&& (match if_expression.else_expression {
                            ElseExpression::Block(b) => inc@[1].1 as int == block_result(
                                b,
                                base + cs + bs,
                            ),
                            ElseExpression::IfExpression(inner) => inc@[1].1 as int == base
                                + cs + bs + if_size(*inner) - 1,
                            ElseExpression::Empty => inc@[1].1 as int == base + cs + bs && (
                            match final(self).instrs@[inc@[1].1 as int] {
                                Instr::ConstInt(z) => z == 0,
                                _ => false,
                            }),
                        })
                    },
                    _ => false,
                })
                &&& (exists|cb: int|
                    0 <= cb < final(self).blocks@.len() && (match (#[trigger] final(self).blocks@[cb]).terminator {
                        Some(Terminator::CondBr(cv, _, _)) => cv as int == expr_result(
                            if_expression.condition,
                            base,
                        ),
                        _ => false,
                    }))
            }),
        decreases if_expression,
    {
        let ghost base = *old(self);
        // the merge block, allocated up front
        let after = self.basic_block("after");
        let ghost mut prev = *self;
        proof {
            assert(after == base.blocks@.len());
            assert(self.blocks@[after as int].terminator is None);
        }
        // the condition, evaluated in the originating block
        let condition = match self.build_expression(&if_expression.condition) {
            Ok(c) => c,
            Err(e) => {
                proof {
                    lemma_extends_trans(base, prev, *self);
                }
                return Err(e);
            },
        };
        proof {
            lemma_extends_trans(base, prev, *self);
            prev = *self;
            assert(self.blocks@[after as int].terminator is None);
        }
        let cond_block = match self.current_basic_block {
            Some(c) => c,
            None => 0,
        };
        proof {
            assert(cond_block < self.blocks@.len());
            assert(self.blocks@[cond_block as int].terminator is None);
            assert(cond_block == base.cur() || cond_block >= base.blocks@.len() + 1);
            assert(cond_block != after);
        }
        // the then branch
        let if_block = self.basic_block("if");
        proof {
            lemma_extends_trans(base, prev, *self);
            prev = *self;
            assert(after < if_block && cond_block < if_block);
        }
        self.position_at_block_ref(if_block);
        proof {
            lemma_extends_trans(base, prev, *self);
            prev = *self;
        }
        let ghost s_t = *self;
        let if_body = match self.build_block(&if_expression.body) {
            Ok(v) => v,
            Err(e) => {
                proof {
                    lemma_extends_trans(base, prev, *self);
                }
                return Err(e);
            },
        };
        proof {
            lemma_extends_trans(base, prev, *self);
            prev = *self;
            assert(self.blocks@[after as int].terminator is None);
            assert(self.blocks@[cond_block as int].terminator is None);
        }
        let then_exit = match self.current_basic_block {
            Some(c) => c,
            None => 0,
        };
        proof {
            assert(then_exit == if_block || then_exit >= s_t.blocks@.len());
            assert(then_exit != after && then_exit != cond_block);
        }
        let mut incoming: Vec<(usize, usize)> = Vec::new();
        incoming.push((then_exit, if_body));
        self.build_br(after);
        proof {
            lemma_extends_trans(base, prev, *self);
            prev = *self;
            assert(self.blocks@[then_exit as int].terminator == Some(Terminator::Br(after)));
            assert(self.blocks@[after as int].terminator is None);
            assert(self.blocks@[cond_block as int].terminator is None);
        }
        // the else branch: a block, a chained if, or a synthesized noop
        let else_entry: usize;
        match &if_expression.else_expression {
            ElseExpression::Block(block) => {
                let eb = self.basic_block("else");
                proof {
                    lemma_extends_trans(base, prev, *self);
                    prev = *self;
                    assert(then_exit < eb && after < eb && cond_block < eb);
                }
                self.position_at_block_ref(eb);
                proof {
                    lemma_extends_trans(base, prev, *self);
                    prev = *self;
                }
                let ghost s_e = *self;
                let v = match self.build_block(block) {
                    Ok(v) => v,
                    Err(e) => {
                        proof {
                            lemma_extends_trans(base, prev, *self);
                        }
                        return Err(e);
                    },
                };
                proof {
                    lemma_extends_trans(base, prev, *self);
                    prev = *self;
                }
                let exit = match self.current_basic_block {
                    Some(c) => c,
                    None => 0,
                };
                proof {
                    assert(exit == eb || exit >= s_e.blocks@.len());
                    assert(exit != after && exit != cond_block && exit != then_exit);
                    assert(self.blocks@[then_exit as int].terminator == Some(
                        Terminator::Br(after),
                    ));
                }
                incoming.push((exit, v));
                self.build_br(after);
                proof {
                    lemma_extends_trans(base, prev, *self);
                    prev = *self;
                    assert(self.blocks@[exit as int].terminator == Some(Terminator::Br(after)));
                }
                else_entry = eb;
            },
            ElseExpression::IfExpression(expr) => {
                let eb = self.basic_block("else");
                proof {
                    lemma_extends_trans(base, prev, *self);
                    prev = *self;
                    assert(then_exit < eb && after < eb && cond_block < eb);
                }
                self.position_at_block_ref(eb);
                proof {
                    lemma_extends_trans(base, prev, *self);
                    prev = *self;
                }
                let ghost s_e = *self;
                let v = match self.build_if_expression(&**expr) {
                    Ok(v) => v,
                    Err(e) => {
                        proof {
                            lemma_extends_trans(base, prev, *self);
                        }
                        return Err(e);
                    },
                };
                proof {
                    lemma_extends_trans(base, prev, *self);
                    prev = *self;
                }
                let exit = match self.current_basic_block {
                    Some(c) => c,
                    None => 0,
                };
                proof {
                    assert(exit == eb || exit >= s_e.blocks@.len());
                    assert(exit != after && exit != cond_block && exit != then_exit);
                    assert(self.blocks@[then_exit as int].terminator == Some(
                        Terminator::Br(after),
                    ));
                }
                incoming.push((exit, v));
                self.build_br(after);
                proof {
                    lemma_extends_trans(base, prev, *self);
                    prev = *self;
                    assert(self.blocks@[exit as int].terminator == Some(Terminator::Br(after)));
                }
                else_entry = eb;
            },
            ElseExpression::Empty => {
                let noop = self.basic_block("noop");
                proof {
                    lemma_extends_trans(base, prev, *self);
                    prev = *self;
                    assert(then_exit < noop && after < noop && cond_block < noop);
                }
                self.position_at_block_ref(noop);
                proof {
                    lemma_extends_trans(base, prev, *self);
                    prev = *self;
                }
                let zero = self.build_const_int(0);
                proof {
                    lemma_extends_trans(base, prev, *self);
                    prev = *self;
                    assert(self.instrs@[zero as int] matches Instr::ConstInt(z) && z == 0);
                }
                incoming.push((noop, zero));
                self.build_br(after);
                proof {
                    lemma_extends_trans(base, prev, *self);
                    prev = *self;
                    assert(self.blocks@[noop as int].terminator == Some(Terminator::Br(after)));
                    assert(self.blocks@[then_exit as int].terminator == Some(
                        Terminator::Br(after),
                    ));
                }
                else_entry = noop;
            },
        }
        proof {
            assert(self.blocks@[after as int].terminator is None);
            assert(self.blocks@[cond_block as int].terminator is None);
            assert(condition < self.instrs@.len());
        }
        // the conditional branch, in the block holding the condition value
        self.position_at_block_ref(cond_block);
        proof {
            lemma_extends_trans(base, prev, *self);
            prev = *self;
        }
        self.build_cond_br(condition, if_block, else_entry);
        proof {
            lemma_extends_trans(base, prev, *self);
            prev = *self;
            assert(self.blocks@[after as int].terminator is None);
        }
        // the merge: a phi over every (predecessor, value) pair
        self.position_at_block_ref(after);
        proof {
            lemma_extends_trans(base, prev, *self);
            prev = *self;
            assert(forall|k: int|
                0 <= k < incoming@.len() ==> (#[trigger] incoming@[k]).0 < self.blocks@.len()
                    && incoming@[k].1 < self.instrs@.len()
                    && self.blocks@[incoming@[k].0 as int].terminator == Some(
                    Terminator::Br(after),
                ));
        }
        let ghost s_phi = *self;
        let id = self.build_phi(Types::Int, incoming);
        proof {
            lemma_extends_trans(base, prev, *self);
            assert(self.instrs@[id as int] == Instr::Phi(incoming));
            assert(incoming@.len() == 2);
            if if_expression.else_expression is Empty {
                assert(self.instrs@[incoming@[1].1 as int] == s_phi.instrs@[incoming@[1].1 as int]);
            }
            assert(self.blocks@[cond_block as int].terminator matches Some(
                Terminator::CondBr(_, _, _),
            ));
        }
        Ok(id)
    }
}


/// A successful lookup returns the value of some entry of the list.
pub proof fn lemma_env_lookup_in(env: Seq<(String, usize)>, name: Seq<char>)
    ensures
        match env_lookup(env, name) {
            Some(v) => exists|i: int| 0 <= i < env.len() && (#[trigger] env[i]).1 == v,
            None => true,
        },
    decreases env.len(),
{
    if env.len() > 0 {
        if env.last().0@ == name {
            assert(env[env.len() - 1].1 == env.last().1);
        } else {
            lemma_env_lookup_in(env.drop_last(), name);
            if env_lookup(env, name) is Some {
                let i = choose|i: int|
                    0 <= i < env.drop_last().len() && (#[trigger] env.drop_last()[i]).1
                        == env_lookup(env, name).unwrap();
                assert(env[i].1 == env.drop_last()[i].1);
            }
        }
    }
}

/// The module being produced: one generated function per top-level
/// declaration, plus forward declarations such as the print primitive.
#[derive(Debug)]
pub struct Module {
    /// The module's name.
    pub name: String,
    /// The functions, in generation order; a function's index is its
    /// handle.
    pub functions: Vec<Function>,
}

impl Module {
    /// Creates an empty module.
    pub fn new(name: &str) -> (r: Module)
        ensures
            r.name@ == name@,
            r.functions@.len() == 0,
    {
        Module { name: name.to_owned(), functions: Vec::new() }
    }
}

/// The code generator: the module under construction and the shared
/// function registry, populated as each top-level function is generated and
/// consulted for calls.
#[derive(Debug)]
pub struct Codegen {
    /// The module being filled.
    pub module: Module,
    /// The global function registry.
    pub environment: Environment,
}

impl Codegen {
    /// The generator's invariant: every function in the module is well
    /// formed, finished (every block terminated, no insertion point left),
    /// stands at the index its handle names, and every registry entry
    /// resolves to an existing function.
    pub open spec fn inv(&self) -> bool {
        &&& forall|k: int|
            0 <= k < self.module.functions@.len() ==> {
                let f = #[trigger] self.module.functions@[k];
                &&& f.inv()
                &&& f.self_id == k
                &&& f.fully_terminated()
                &&& f.current_basic_block is None
            }
        &&& forall|e: int|
            0 <= e < self.environment.0@.len() ==> (#[trigger] self.environment.0@[e]).1
                < self.module.functions@.len()
    }

    /// Creates a generator with an empty module of the given name.
    pub fn new(module_name: &str) -> (r: Codegen)
        ensures
            r.inv(),
            r.module.name@ == module_name@,
            r.module.functions@.len() == 0,
            r.environment.0@.len() == 0,
    {
        Codegen { module: Module::new(module_name), environment: Environment::new() }
    }

    /// The module produced so far.
    pub fn module(&self) -> (r: &Module)
        ensures
            *r == self.module,
    {
        &self.module
    }

    /// The target type a surface type lowers to.  The generated form is
    /// untyped, so everything not otherwise distinguished maps to the
    /// integer type; a function type's arity is what matters.
    pub fn to_types(t: &Type) -> (r: Types)
        ensures
            r.spec_arity() == 0,
    {
        match t {
            Type::Boolean => Types::Bool,
            Type::String => Types::String,
            Type::Void => Types::Void,
            _ => Types::Int,
        }
    }

    /// Registers a function by name without generating a body: a forward
    /// declaration for externally linked primitives.
    pub fn declare_function(&mut self, function_type: Types, name: &str)
        requires
            old(self).inv(),
        ensures
            final(self).inv(),
            final(self).module.name@ == old(self).module.name@,
            final(self).module.functions@.len() == old(self).module.functions@.len() + 1,
            env_lookup(final(self).environment.0@, name@) == Some(
                old(self).module.functions@.len() as usize,
            ),
            names_of(final(self).environment.0@) == names_of(old(self).environment.0@).push(
                name@,
            ),
    {
        let func = Function::new(self, function_type, name);
        let id = func.self_id;
        let ghost env_pre = self.environment.0@;
        self.module.functions.push(func);
        self.environment.0.push((name.to_owned(), id));
        proof {
            assert(final(self).environment.0@.last().0@ == name@);
            assert(names_of(final(self).environment.0@) =~= names_of(env_pre).push(name@));
        }
    }

    /// Generates one function: entry block storing each parameter into
    /// fresh addressable storage, an unconditional branch into the block
    /// holding the translated body, and a return of the body's value (or a
    /// void return for a void function).  The finished function is checked
    /// for structural consistency and registered in the environment, so
    /// that later functions, and the function's own body through the
    /// self-call case, can call it.
    pub fn build_function(&mut self, function: FuncDecl) -> (r: Result<(), CodegenError>)
        requires
            old(self).inv(),
        ensures
            final(self).inv(),
            final(self).module.name@ == old(self).module.name@,
            r is Ok ==> {
                let f = final(self).module.functions@.last();
                let n = function.args@.len() as int;
                &&& final(self).module.functions@.len() == old(self).module.functions@.len()
                    + 1
                &&& env_lookup(final(self).environment.0@, function.name@) == Some(
                    old(self).module.functions@.len() as usize,
                )
                &&& f.fully_terminated()
                &&& f.name@ == function.name@
                &&& f.n_params as int == n
                &&& f.instrs@.len() == 3 * n + block_size(function.body)
                &&& f.blocks@.len() >= 2
                &&& f.blocks@[0].terminator == Some(Terminator::Br(1))
                &&& (function.return_type is Void ==> (exists|b: int|
                    0 <= b < f.blocks@.len() && (#[trigger] f.blocks@[b]).terminator == Some(
                        Terminator::RetVoid,
                    )))
                &&& (!(function.return_type is Void) ==> (exists|b: int|
                    0 <= b < f.blocks@.len() && (match (#[trigger] f.blocks@[b]).terminator {
                        Some(Terminator::Ret(v)) => v as int == block_result(
                            function.body,
                            3 * n,
                        ),
                        _ => false,
                    })))
            },
            r is Err ==> *final(self) == *old(self),
            r is Ok <==> check_function(function, names_of(old(self).environment.0@)),
            r is Ok ==> names_of(final(self).environment.0@) == names_of(
                old(self).environment.0@,
            ).push(function.name@),
    {
        let mut arg_types: Vec<Types> = Vec::new();
        let mut i: usize = 0;
        while i < function.args.len()
            invariant
                i <= function.args@.len(),
                arg_types@.len() == i as int,
            decreases function.args@.len() - i,
        {
            arg_types.push(Self::to_types(&function.args[i].arg_type));
            i = i + 1;
        }
        let ft = Types::Func(
            Box::new(Self::to_types(&function.return_type)),
            arg_types,
            false,
        );
        let ghost n_args = function.args@.len();
        let mut func = Function::new(self, ft, function.name.as_str());
        // entry: give each parameter addressable storage and bind its name
        let entry = func.basic_block("entry");
        func.position_at_block_ref(entry);
        let ghost f0 = func;
        let mut i: usize = 0;
        proof {
            lemma_extends_refl(func);
        }
        #[verifier::loop_isolation(false)]
        while i < function.args.len()
            invariant
                f0.inv(),
                stepped(f0, func),
                func.current_basic_block == f0.current_basic_block,
                func.blocks@.len() == f0.blocks@.len(),
                func.n_params == f0.n_params,
                i <= function.args@.len(),
                function.args@.len() == n_args,
                n_args <= func.n_params,
                names_of(func.variables@) == arg_names(function.args@.take(i as int)),
                func.instrs@.len() == f0.instrs@.len() + 2 * i,
            decreases function.args@.len() - i,
        {
            let ghost fp = func;
            let ptr = func.build_stack_ptr(
                Self::to_types(&function.args[i].arg_type),
                function.args[i].name.as_str(),
            );
            let val = func.get_param(i);
            func.assign(&function.args[i].name, ptr);
            func.build_store(val, ptr);
            proof {
                lemma_stepped_trans(f0, fp, func);
                lemma_names_push(fp.variables@, (function.args@[i as int].name, ptr));
                assert(arg_names(function.args@.take(i + 1)) =~= arg_names(
                    function.args@.take(i as int),
                ).push(function.args@[i as int].name@));
                assert(names_of(func.variables@) =~= arg_names(function.args@.take(i + 1)));
            }
            i = i + 1;
        }
        proof {
            assert(function.args@.take(n_args as int) =~= function.args@);
        }
        // the translated body lives in its own block
        let block = func.basic_block("block");
        func.build_br(block);
        func.position_at_block_ref(block);
        let ret = match func.build_block(&function.body) {
            Ok(v) => v,
            Err(e) => {
                return Err(e);
            },
        };
        let ghost ret_block = func.cur();
        if let Type::Void = function.return_type {
            func.build_ret_void();
        } else {
            func.build_ret(ret);
        }
        func.seal();
        proof {
            if function.return_type is Void {
                assert(func.blocks@[ret_block].terminator == Some(Terminator::RetVoid));
            } else {
                assert(func.blocks@[ret_block].terminator matches Some(Terminator::Ret(v))
                    && v == ret);
            }
            assert(func.blocks@[0].terminator == Some(Terminator::Br(1)));
        }
        let id = func.self_id;
        let ghost env_pre = self.environment.0@;
        self.module.functions.push(func);
        self.environment.0.push((function.name.clone(), id));
        proof {
            assert(final(self).environment.0@.last().0@ == function.name@);
            lemma_names_push(env_pre, (function.name, id));
            assert(names_of(final(self).environment.0@) =~= names_of(env_pre).push(
                function.name@,
            ));
        }
        Ok(())
    }

    /// Generates every declaration of a program in order.  Top-level
    /// variable declarations are not supported by the generator.
    fn build_program_internal(&mut self, program: Program) -> (r: Result<(), CodegenError>)
        requires
            old(self).inv(),
        ensures
            final(self).inv(),
            final(self).module.name@ == old(self).module.name@,
            r is Ok <==> check_program_decls(program, names_of(old(self).environment.0@)),
            r is Ok ==> names_of(final(self).environment.0@) == decls_names(
                program,
                names_of(old(self).environment.0@),
            ),
        decreases program,
    {
        match program {
            Program::Decl(decl, next) => {
                match decl {
                    crate::ast::Decl::FuncDecl(func_decl) => {
                        match self.build_function(func_decl) {
                            Ok(_) => {},
                            Err(e) => {
                                return Err(e);
                            },
                        }
                        self.build_program_internal(*next)
                    },
                    crate::ast::Decl::VarDecl(_) => Err(
                        CodegenError::new("Global variables are not yet supported"),
                    ),
                }
            },
            Program::Empty => Ok(()),
        }
    }

    /// Generates a whole program: declares the external print primitive,
    /// generates every function, and returns the handle of `main`, which a
    /// runnable unit must define.
    pub fn build_program(&mut self, program: Program) -> (r: Result<usize, CodegenError>)
        requires
            old(self).inv(),
        ensures
            final(self).inv(),
            r matches Ok(id) ==> {
                &&& (id as int) < final(self).module.functions@.len()
                &&& env_lookup(final(self).environment.0@, "main"@) == Some(id)
                &&& final(self).module.functions@[id as int].fully_terminated()
            },
            r is Ok <==> ({
                let env0 = names_of(old(self).environment.0@).push("printf"@);
                &&& check_program_decls(program, env0)
                &&& (program_declares(program, "main"@) || name_bound(env0, "main"@))
            }),
    {
        let ghost env0 = names_of(old(self).environment.0@).push("printf"@);
        self.declare_function(Types::printf(), "printf");
        match self.build_program_internal(program) {
            Ok(_) => {},
            Err(e) => {
                return Err(e);
            },
        }
        let main_name = "main".to_owned();
        proof {
            lemma_lookup_is_bound(self.environment.0@, "main"@);
            lemma_decls_names_bound(program, env0, "main"@);
        }
        match lookup(&self.environment.0, &main_name) {
            Some(id) => {
                proof {
                    lemma_env_lookup_in(self.environment.0@, main_name@);
                }
                Ok(id)
            },
            None => Err(CodegenError::UndeclaredFunction(main_name)),
        }
    }
}


/// Law: whatever the generator has produced under its invariant, every
/// function of the module is structurally sound: every basic block carries
/// its terminator, and every (block, value) operand pair of every phi names
/// a block that ends with an unconditional branch to the block holding the
/// phi and that itself holds the operand value's defining instruction — a
/// phi merges only values produced in direct predecessors of its block.
pub proof fn lemma_generated_functions_wf(cg: Codegen, k: int)
    requires
        cg.inv(),
        0 <= k < cg.module.functions@.len(),
    ensures
        cg.module.functions@[k].fully_terminated(),
        cg.module.functions@[k].phi_preds_ok(),
{
}

} // verus!
