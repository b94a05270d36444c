use wasmlite::error::Error;
use wasmlite::instance::{Function, Value};
use wasmlite::module::{Instr, Val};

fn add_function() -> Function {
    Function {
        locals: vec![],
        body: vec![Instr::LocalGet(0), Instr::LocalGet(1), Instr::I32Add, Instr::End],
    }
}

#[test]
fn add_returns_the_sum() {
    let f = add_function();
    let r = f.call(&[Value::I32(12), Value::I32(42)]).unwrap();
    assert_eq!(r, Value::I32(54));
}

#[test]
fn add_wraps_on_overflow() {
    let f = add_function();
    let r = f.call(&[Value::I32(2147483647), Value::I32(1)]).unwrap();
    assert_eq!(r, Value::I32(-2147483648));
}

#[test]
fn mul_wraps_on_overflow() {
    let f = Function {
        locals: vec![],
        body: vec![Instr::LocalGet(0), Instr::LocalGet(1), Instr::I32Mul, Instr::End],
    };
    assert_eq!(f.call(&[Value::I32(6), Value::I32(7)]).unwrap(), Value::I32(42));
    assert_eq!(
        f.call(&[Value::I32(2147483647), Value::I32(2)]).unwrap(),
        Value::I32(-2)
    );
}

#[test]
fn end_only_body_has_no_result() {
    let f = Function { locals: vec![], body: vec![Instr::End] };
    assert!(matches!(f.call(&[]), Err(Error::MissingResult)));
}

#[test]
fn local_get_out_of_range_is_a_reference_error() {
    let f = Function { locals: vec![], body: vec![Instr::LocalGet(5), Instr::End] };
    assert!(matches!(
        f.call(&[Value::I32(1), Value::I32(2)]),
        Err(Error::LocalIndexOutOfRange)
    ));
}

#[test]
fn declared_locals_start_as_zero() {
    let f = Function {
        locals: vec![Val::I32],
        body: vec![Instr::LocalGet(1), Instr::LocalGet(0), Instr::I32Add, Instr::End],
    };
    assert_eq!(f.call(&[Value::I32(9)]).unwrap(), Value::I32(9));
}

#[test]
fn add_on_short_stack_is_a_type_mismatch() {
    let f = Function { locals: vec![], body: vec![Instr::I32Add, Instr::End] };
    assert!(matches!(f.call(&[]), Err(Error::TypeMismatch)));
    let g = Function {
        locals: vec![],
        body: vec![Instr::LocalGet(0), Instr::I32Mul, Instr::End],
    };
    assert!(matches!(g.call(&[Value::I32(4)]), Err(Error::TypeMismatch)));
}

#[test]
fn unsupported_opcodes_fail_loudly() {
    let f = Function { locals: vec![], body: vec![Instr::DivI32U, Instr::End] };
    assert!(matches!(f.call(&[]), Err(Error::UnsupportedOpcode)));
    let g = Function { locals: vec![], body: vec![Instr::ConstF64(0), Instr::End] };
    assert!(matches!(g.call(&[]), Err(Error::UnsupportedOpcode)));
}

#[test]
fn execution_stops_at_end() {
    // everything after `end` is unreachable, including a bad local index
    let f = Function {
        locals: vec![],
        body: vec![Instr::LocalGet(0), Instr::End, Instr::LocalGet(9)],
    };
    assert_eq!(f.call(&[Value::I32(5)]).unwrap(), Value::I32(5));
}

#[test]
fn result_is_the_top_of_the_stack() {
    let f = Function {
        locals: vec![],
        body: vec![Instr::LocalGet(0), Instr::LocalGet(1), Instr::End],
    };
    assert_eq!(f.call(&[Value::I32(1), Value::I32(2)]).unwrap(), Value::I32(2));
}

#[test]
fn empty_body_with_argument_on_stack_still_missing_result() {
    // an empty body never pushes: the stack is empty at the end
    let f = Function { locals: vec![], body: vec![] };
    assert!(matches!(f.call(&[Value::I32(3)]), Err(Error::MissingResult)));
}
