//! Instantiating a decoded module, resolving an export by name, and
//! executing one function body on a stack machine over `i32` values.
//!
//! Execution is specified by `spec_run`, a step-for-step description of the
//! machine: each call's result is proved equal to it for every function and
//! every argument list.

use vstd::prelude::*;

use crate::error::Error;
use crate::module::{
    copy_vals, exports_view, funcs_view, Export, Func, Instr, Module, ModuleView, Val,
};

verus! {

/// A runtime value.  This interpreter computes over `I32` alone.
#[derive(Clone, Copy, PartialEq, Eq, Debug)]
pub enum Value {
    I32(i32),
}

/// The `i32` a value carries.
pub open spec fn as_i32(v: Value) -> i32 {
    match v {
        Value::I32(n) => n,
    }
}

/// A callable function handle: its declared locals and its body.
pub struct Function {
    pub locals: Vec<Val>,
    pub body: Vec<Instr>,
}

#[verifier::ext_equal]
pub ghost struct FunctionView {
    pub locals: Seq<Val>,
    pub body: Seq<Instr>,
}

impl View for Function {
    type V = FunctionView;

    open spec fn view(&self) -> FunctionView {
        FunctionView { locals: self.locals@, body: self.body@ }
    }
}

/// The export table of an instantiated module.
pub struct Exports {
    pub exports: Vec<Export>,
    pub functions: Vec<Func>,
}

impl View for Exports {
    type V = ModuleView;

    open spec fn view(&self) -> ModuleView {
        ModuleView { funcs: funcs_view(self.functions@), exports: exports_view(self.exports@) }
    }
}

/// An instantiated module.
pub struct Instance {
    pub exports: Exports,
}

impl Instance {
    /// Wrap a decoded module for execution.
    pub fn new(module: Module) -> (r: Instance)
        ensures
            r.exports@ == module@,
    {
        Instance {
            exports: Exports { exports: module.exports, functions: module.funcs },
        }
    }
}

// ------------------------------------------------------------------
// export resolution
// ------------------------------------------------------------------

/// The first export from index `i` on whose name is `name`: its function,
/// or `ExportNotFound` when no export matches, or `FunctionIndexOutOfRange`
/// when the matching export points outside the function list.
pub open spec fn spec_resolve_from(m: ModuleView, name: Seq<char>, i: int) -> Result<
    FunctionView,
    Error,
>
    decreases m.exports.len() - i,
{
    if i < 0 || i >= m.exports.len() {
        Err(Error::ExportNotFound)
    } else if m.exports[i].name == name {
        let idx = m.exports[i].idx;
        if idx < m.funcs.len() {
            Ok(FunctionView { locals: m.funcs[idx].locals, body: m.funcs[idx].body })
        } else {
            Err(Error::FunctionIndexOutOfRange)
        }
    } else {
        spec_resolve_from(m, name, i + 1)
    }
}

/// What resolving `name` in a module yields.
pub open spec fn spec_resolve(m: ModuleView, name: Seq<char>) -> Result<FunctionView, Error> {
    spec_resolve_from(m, name, 0)
}

/// Copy a list of instructions.
#[verifier::loop_isolation(false)]
pub fn copy_instrs(v: &Vec<Instr>) -> (r: Vec<Instr>)
    ensures
        r@ == v@,
{
    let mut out: Vec<Instr> = Vec::new();
    let mut i: usize = 0;
    while i < v.len()
        invariant
            0 <= i <= v@.len(),
            out@ == v@.subrange(0, i as int),
        decreases v@.len() - i,
    {
        out.push(v[i]);
        proof {
            assert(out@ =~= v@.subrange(0, i + 1));
        }
        i = i + 1;
    }
    proof {
        assert(out@ =~= v@);
    }
    out
}

/// Find the first export named `name` and hand out its function.
#[verifier::loop_isolation(false)]
fn resolve_in(exports: &Vec<Export>, functions: &Vec<Func>, name: &str) -> (r: Result<
    Function,
    Error,
>)
    ensures
        ({
            let m = ModuleView { funcs: funcs_view(functions@), exports: exports_view(exports@) };
            match r {
                Ok(f) => spec_resolve(m, name@) == Ok::<FunctionView, Error>(f@),
                Err(e) => spec_resolve(m, name@) == Err::<FunctionView, Error>(e),
            }
        }),
{
    let ghost m = ModuleView { funcs: funcs_view(functions@), exports: exports_view(exports@) };
    let owned: String = name.to_owned();
    let mut i: usize = 0;
    while i < exports.len()
        invariant
            0 <= i <= exports@.len(),
            spec_resolve(m, name@) == spec_resolve_from(m, name@, i as int),
        decreases exports@.len() - i,
    {
        if exports[i].name == owned {
            let idx: u64 = exports[i].idx;
            if idx < functions.len() as u64 {
                let f: &Func = &functions[idx as usize];
                return Ok(Function { locals: copy_vals(&f.locals), body: copy_instrs(&f.body) });
            } else {
                return Err(Error::FunctionIndexOutOfRange);
            }
        }
        i = i + 1;
    }
    Err(Error::ExportNotFound)
}

/// Resolve an export name in a decoded module.
pub fn resolve(module: &Module, name: &str) -> (r: Result<Function, Error>)
    ensures
        match r {
            Ok(f) => spec_resolve(module@, name@) == Ok::<FunctionView, Error>(f@),
            Err(e) => spec_resolve(module@, name@) == Err::<FunctionView, Error>(e),
        },
{
    resolve_in(&module.exports, &module.funcs, name)
}

impl Exports {
    /// Resolve an export name in an instantiated module.
    pub fn get_function(&self, name: &str) -> (r: Result<Function, Error>)
        ensures
            match r {
                Ok(f) => spec_resolve(self@, name@) == Ok::<FunctionView, Error>(f@),
                Err(e) => spec_resolve(self@, name@) == Err::<FunctionView, Error>(e),
            },
    {
        resolve_in(&self.exports, &self.functions, name)
    }
}

// ------------------------------------------------------------------
// execution
// ------------------------------------------------------------------

/// The call's outcome once execution stops: the top of the operand stack,
/// or `MissingResult` on an empty stack.
pub open spec fn spec_finish(stack: Seq<Value>) -> Result<Value, Error> {
    if stack.len() == 0 {
        Err(Error::MissingResult)
    } else {
        Ok(stack.last())
    }
}

/// The machine, one instruction per step: `body` from instruction `i` on,
/// over `locals` (arguments first, then declared locals) and the operand
/// stack.  Arithmetic wraps as 32-bit two's complement.  Decoded opcodes
/// this interpreter does not execute fail with `UnsupportedOpcode`.
pub open spec fn spec_run(body: Seq<Instr>, i: int, locals: Seq<Value>, stack: Seq<Value>) -> Result<
    Value,
    Error,
>
    decreases body.len() - i,
{
    if i < 0 || i >= body.len() {
        spec_finish(stack)
    } else {
        match body[i] {
            Instr::LocalGet(n) => if n < locals.len() {
                spec_run(body, i + 1, locals, stack.push(locals[n as int]))
            } else {
                Err(Error::LocalIndexOutOfRange)
            },
            Instr::I32Add => if stack.len() < 2 {
                Err(Error::TypeMismatch)
            } else {
                let left = as_i32(stack.last());
                let right = as_i32(stack[stack.len() - 2]);
                spec_run(
                    body,
                    i + 1,
                    locals,
                    stack.take(stack.len() - 2).push(
                        Value::I32(vstd::wrapping::i32_specs::wrapping_add(left, right)),
                    ),
                )
            },
            Instr::I32Mul => if stack.len() < 2 {
                Err(Error::TypeMismatch)
            } else {
                let left = as_i32(stack.last());
                let right = as_i32(stack[stack.len() - 2]);
                spec_run(
                    body,
                    i + 1,
                    locals,
                    stack.take(stack.len() - 2).push(
                        Value::I32(vstd::wrapping::i32_specs::wrapping_mul(left, right)),
                    ),
                )
            },
            Instr::End => spec_finish(stack),
            Instr::LoadI32(_) => Err(Error::UnsupportedOpcode),
            Instr::Call(_) => Err(Error::UnsupportedOpcode),
            Instr::DivI32U => Err(Error::UnsupportedOpcode),
            Instr::ConstF64(_) => Err(Error::UnsupportedOpcode),
        }
    }
}

/// A fresh call binds the arguments, zero-initialises the declared locals,
/// and runs the body on an empty operand stack.
pub open spec fn spec_call(f: FunctionView, args: Seq<Value>) -> Result<Value, Error> {
    spec_run(
        f.body,
        0,
        args + Seq::new(f.locals.len(), |j: int| Value::I32(0)),
        Seq::empty(),
    )
}

impl Function {
    /// Execute this function on `args`, exactly as [`spec_call`] says.
    #[verifier::loop_isolation(false)]
    pub fn call(&self, args: &[Value]) -> (r: Result<Value, Error>)
        ensures
            match r {
                Ok(v) => spec_call(self@, args@) == Ok::<Value, Error>(v),
                Err(e) => spec_call(self@, args@) == Err::<Value, Error>(e),
            },
    {
        let mut locals: Vec<Value> = Vec::new();
        let mut a: usize = 0;
        while a < args.len()
            invariant
                0 <= a <= args@.len(),
                locals@ == args@.subrange(0, a as int),
            decreases args@.len() - a,
        {
            locals.push(args[a]);
            proof {
                assert(locals@ =~= args@.subrange(0, a + 1));
            }
            a = a + 1;
        }
        let mut z: usize = 0;
        while z < self.locals.len()
            invariant
                0 <= z <= self.locals@.len(),
                locals@ == args@.subrange(0, args@.len() as int) + Seq::new(
                    z as nat,
                    |j: int| Value::I32(0),
                ),
            decreases self.locals@.len() - z,
        {
            locals.push(Value::I32(0));
            proof {
                assert(locals@ =~= args@.subrange(0, args@.len() as int) + Seq::new(
                    (z + 1) as nat,
                    |j: int| Value::I32(0),
                ));
            }
            z = z + 1;
        }
        proof {
            assert(locals@ =~= args@ + Seq::new(self.locals@.len(), |j: int| Value::I32(0)));
        }
        let mut stack: Vec<Value> = Vec::new();
        let mut i: usize = 0;
        while i < self.body.len()
            invariant
                0 <= i <= self.body@.len(),
                locals@ == args@ + Seq::new(self.locals@.len(), |j: int| Value::I32(0)),
                spec_call(self@, args@) == spec_run(self.body@, i as int, locals@, stack@),
            decreases self.body@.len() - i,
        {
            let ghost stack0: Seq<Value> = stack@;
            let ins: Instr = self.body[i];
            match ins {
                Instr::LocalGet(n) => {
                    if (n as usize) < locals.len() {
                        stack.push(locals[n as usize]);
                    } else {
                        return Err(Error::LocalIndexOutOfRange);
                    }
                },
                Instr::I32Add => {
                    let x: Value = match stack.pop() {
                        Some(v) => v,
                        None => {
                            return Err(Error::TypeMismatch);
                        },
                    };
                    let y: Value = match stack.pop() {
                        Some(v) => v,
                        None => {
                            return Err(Error::TypeMismatch);
                        },
                    };
                    let xv: i32 = match x {
                        Value::I32(n) => n,
                    };
                    let yv: i32 = match y {
                        Value::I32(n) => n,
                    };
                    stack.push(Value::I32(xv.wrapping_add(yv)));
                    proof {
                        assert(stack@ =~= stack0.take(stack0.len() - 2).push(
                            Value::I32(
                                vstd::wrapping::i32_specs::wrapping_add(as_i32(x), as_i32(y)),
                            ),
                        ));
                    }
                },
                Instr::I32Mul => {
                    let x: Value = match stack.pop() {
                        Some(v) => v,
                        None => {
                            return Err(Error::TypeMismatch);
                        },
                    };
                    let y: Value = match stack.pop() {
                        Some(v) => v,
                        None => {
                            return Err(Error::TypeMismatch);
                        },
                    };
                    let xv: i32 = match x {
                        Value::I32(n) => n,
                    };
                    let yv: i32 = match y {
                        Value::I32(n) => n,
                    };
                    stack.push(Value::I32(xv.wrapping_mul(yv)));
                    proof {
                        assert(stack@ =~= stack0.take(stack0.len() - 2).push(
                            Value::I32(
                                vstd::wrapping::i32_specs::wrapping_mul(as_i32(x), as_i32(y)),
                            ),
                        ));
                    }
                },
                Instr::End => {
                    return match stack.pop() {
                        Some(v) => Ok(v),
                        None => Err(Error::MissingResult),
                    };
                },
                Instr::LoadI32(_) => {
                    return Err(Error::UnsupportedOpcode);
                },
                Instr::Call(_) => {
                    return Err(Error::UnsupportedOpcode);
                },
                Instr::DivI32U => {
                    return Err(Error::UnsupportedOpcode);
                },
                Instr::ConstF64(_) => {
                    return Err(Error::UnsupportedOpcode);
                },
            }
            i = i + 1;
        }
        match stack.pop() {
            Some(v) => Ok(v),
            None => Err(Error::MissingResult),
        }
    }
}

// ------------------------------------------------------------------
// laws of execution
// ------------------------------------------------------------------

proof fn lemma_resolve_skip(m: ModuleView, name: Seq<char>, k: int, i: int)
    requires
        0 <= k <= i <= m.exports.len(),
        forall|j: int| k <= j < i ==> m.exports[j].name != name,
    ensures
        spec_resolve_from(m, name, k) == spec_resolve_from(m, name, i),
    decreases i - k,
{
    if k < i {
        lemma_resolve_skip(m, name, k + 1, i);
    }
}

/// Resolution returns the first export carrying the name, in declaration
/// order: its function when the index is in range, `FunctionIndexOutOfRange`
/// when it is not — later exports of the same name never matter.
pub proof fn lemma_resolve_first_match(m: ModuleView, name: Seq<char>, i: int)
    requires
        0 <= i < m.exports.len(),
        m.exports[i].name == name,
        forall|j: int| 0 <= j < i ==> m.exports[j].name != name,
    ensures
        m.exports[i].idx < m.funcs.len() ==> spec_resolve(m, name) == Ok::<FunctionView, Error>(
            FunctionView {
                locals: m.funcs[m.exports[i].idx].locals,
                body: m.funcs[m.exports[i].idx].body,
            },
        ),
        m.exports[i].idx >= m.funcs.len() ==> spec_resolve(m, name) == Err::<FunctionView, Error>(
            Error::FunctionIndexOutOfRange,
        ),
{
    lemma_resolve_skip(m, name, 0, i);
}

/// When no export carries the name, resolution fails with `ExportNotFound`.
pub proof fn lemma_resolve_not_found(m: ModuleView, name: Seq<char>)
    requires
        forall|j: int| 0 <= j < m.exports.len() ==> m.exports[j].name != name,
    ensures
        spec_resolve(m, name) == Err::<FunctionView, Error>(Error::ExportNotFound),
{
    lemma_resolve_skip(m, name, 0, m.exports.len() as int);
}

/// A body that is only `End`, called with no arguments, leaves the operand
/// stack empty and so fails with `MissingResult`, an execution error.
pub proof fn lemma_end_only_missing_result(f: FunctionView, args: Seq<Value>)
    requires
        f.body == seq![Instr::End],
        args.len() == 0,
    ensures
        spec_call(f, args) == Err::<Value, Error>(Error::MissingResult),
        crate::error::is_execution_error(Error::MissingResult),
{
    let locals = args + Seq::new(f.locals.len(), |j: int| Value::I32(0));
    assert(f.body[0] == Instr::End);
    assert(spec_run(f.body, 0, locals, Seq::empty()) == spec_finish(Seq::<Value>::empty()));
}

/// A leading `local.get` whose index is at or past the end of the locals
/// (arguments and declared locals together) fails the call with
/// `LocalIndexOutOfRange`, a reference error — never a crash.
pub proof fn lemma_local_get_out_of_range(f: FunctionView, args: Seq<Value>, n: u32)
    requires
        f.body.len() > 0,
        f.body[0] == Instr::LocalGet(n),
        n as int >= args.len() + f.locals.len(),
    ensures
        spec_call(f, args) == Err::<Value, Error>(Error::LocalIndexOutOfRange),
        crate::error::is_reference_error(Error::LocalIndexOutOfRange),
{
}

/// Adding the two arguments of a two-argument function wraps as 32-bit
/// two's complement: the body `local.get 0; local.get 1; i32.add; end`
/// returns exactly the wrapped sum, for every pair of arguments.
pub proof fn lemma_add_wraps(f: FunctionView, a: i32, b: i32)
    requires
        f.locals.len() == 0,
        f.body == seq![Instr::LocalGet(0), Instr::LocalGet(1), Instr::I32Add, Instr::End],
    ensures
        spec_call(f, seq![Value::I32(a), Value::I32(b)]) == Ok::<Value, Error>(
            Value::I32(vstd::wrapping::i32_specs::wrapping_add(b, a)),
        ),
{
    let args = seq![Value::I32(a), Value::I32(b)];
    let locals = args + Seq::new(0, |j: int| Value::I32(0));
    assert(locals =~= args);
    let s0 = Seq::<Value>::empty();
    let s1 = s0.push(Value::I32(a));
    let s2 = s1.push(Value::I32(b));
    let s3 = s2.take(0).push(Value::I32(vstd::wrapping::i32_specs::wrapping_add(b, a)));
    assert(spec_run(f.body, 0, locals, s0) == spec_run(f.body, 1, locals, s1));
    assert(spec_run(f.body, 1, locals, s1) == spec_run(f.body, 2, locals, s2));
    assert(s2.last() == Value::I32(b) && s2[0] == Value::I32(a));
    assert(spec_run(f.body, 2, locals, s2) == spec_run(f.body, 3, locals, s3));
    assert(spec_run(f.body, 3, locals, s3) == spec_finish(s3));
    assert(s3.len() == 1);
}

} // verus!
