use vstd::prelude::*;

verus! {

/// Everything that decoding a module, resolving an export, or executing a
/// function body can fail with.  A failure is always reported to the caller;
/// nothing is retried and no partial result is returned.
#[derive(Clone, Copy, PartialEq, Eq, Debug)]
pub enum Error {
    /// The byte stream ended in the middle of a value.
    UnexpectedEof,
    /// A variable-length integer does not fit the width it is decoded at.
    IntegerTooLarge,
    /// The first four bytes are not the module magic.
    BadMagic,
    /// The four version bytes are not the supported version.
    UnsupportedVersion,
    /// A section's framing is wrong: a missing function-type marker, a
    /// declared length that the section's content does not match, or a
    /// function body shorter than its own locals header.
    MalformedSection,
    /// A value-type tag byte that the format does not define.
    UnknownValueType(u8),
    /// An export name whose bytes are not valid UTF-8.
    InvalidExportName,
    /// A function entry names a type index outside the type table.
    UnknownType(u32),
    /// The code section declares a different number of bodies than the
    /// function section declared functions.
    FunctionCountMismatch,
    /// An opcode byte that the decoder does not recognise.
    UnknownOpcode(u8),
    /// No export carries the requested name.
    ExportNotFound,
    /// An export names a function index outside the function list.
    FunctionIndexOutOfRange,
    /// A `local.get` names a local outside the function's locals.
    LocalIndexOutOfRange,
    /// The operand stack holds too few values for the instruction.
    TypeMismatch,
    /// The operand stack is empty when the call should produce its result.
    MissingResult,
    /// A decoded instruction this interpreter does not execute.
    UnsupportedOpcode,
}

/// The failure is fatal to decoding the module: the input itself is not a
/// well-formed module byte stream.
pub open spec fn is_format_error(e: Error) -> bool {
    match e {
        Error::UnexpectedEof => true,
        Error::IntegerTooLarge => true,
        Error::BadMagic => true,
        Error::UnsupportedVersion => true,
        Error::MalformedSection => true,
        Error::UnknownValueType(_) => true,
        Error::InvalidExportName => true,
        Error::FunctionCountMismatch => true,
        _ => false,
    }
}

/// The failure is an index pointing outside the table it refers to.
pub open spec fn is_reference_error(e: Error) -> bool {
    match e {
        Error::UnknownType(_) => true,
        Error::FunctionIndexOutOfRange => true,
        Error::LocalIndexOutOfRange => true,
        _ => false,
    }
}

/// The failure names an opcode that is unknown or not executable here.
pub open spec fn is_opcode_error(e: Error) -> bool {
    match e {
        Error::UnknownOpcode(_) => true,
        Error::UnsupportedOpcode => true,
        _ => false,
    }
}

/// The failure arose while one call was running; the module and its export
/// table stay valid for further calls.
pub open spec fn is_execution_error(e: Error) -> bool {
    match e {
        Error::TypeMismatch => true,
        Error::MissingResult => true,
        _ => false,
    }
}

} // verus!
