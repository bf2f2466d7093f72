//! What can go wrong between a name and the machine code that answers it.

use crate::wasm::ExternalKind;
use vstd::prelude::*;
use vstd::string::StringExecFns;

verus! {

/// A failure of resolution or of code generation.
#[derive(Debug, Clone)]
pub enum RuntimeError {
    /// No export has this name.
    ExportNotFound(String),
    /// No function has this index; the index in decimal.
    FunctionNotFound(String),
    /// The signature of the function or block with this index is missing;
    /// the index in decimal.
    FunctionTypeNotFound(String),
    /// The export exists but names something of another kind: the kind
    /// that was asked for, then the kind that was found.
    ExportKindMismatch(ExternalKind, ExternalKind),
    /// The code generator has no code for this instruction.
    UnsupportedInstruction(String),
    /// The blocks or the operand depth of a body are not ones the code
    /// generator can compile.
    UnsupportedBlockShape,
    /// The machine code does not fit what is left of the code buffer.
    CodeBufferOverflow,
}

/// A failure as contracts speak of it: the variants of `RuntimeError` with
/// each text as a sequence of characters.
pub enum Fault {
    ExportNotFound(Seq<char>),
    FunctionNotFound(Seq<char>),
    FunctionTypeNotFound(Seq<char>),
    ExportKindMismatch(ExternalKind, ExternalKind),
    UnsupportedInstruction(Seq<char>),
    UnsupportedBlockShape,
    CodeBufferOverflow,
}

impl View for RuntimeError {
    type V = Fault;

    open spec fn view(&self) -> Fault {
        match self {
            RuntimeError::ExportNotFound(name) => Fault::ExportNotFound(name@),
            RuntimeError::FunctionNotFound(index) => Fault::FunctionNotFound(index@),
            RuntimeError::FunctionTypeNotFound(index) => Fault::FunctionTypeNotFound(index@),
            RuntimeError::ExportKindMismatch(expected, actual) => Fault::ExportKindMismatch(
                *expected,
                *actual,
            ),
            RuntimeError::UnsupportedInstruction(name) => Fault::UnsupportedInstruction(name@),
            RuntimeError::UnsupportedBlockShape => Fault::UnsupportedBlockShape,
            RuntimeError::CodeBufferOverflow => Fault::CodeBufferOverflow,
        }
    }
}

/// The character of a decimal digit.
pub open spec fn digit_char(d: nat) -> char
    recommends
        d < 10,
{
    if d == 0 {
        '0'
    } else if d == 1 {
        '1'
    } else if d == 2 {
        '2'
    } else if d == 3 {
        '3'
    } else if d == 4 {
        '4'
    } else if d == 5 {
        '5'
    } else if d == 6 {
        '6'
    } else if d == 7 {
        '7'
    } else if d == 8 {
        '8'
    } else {
        '9'
    }
}

/// A number in decimal, without sign or leading zeros.
pub open spec fn decimal(n: nat) -> Seq<char>
    decreases n,
{
    if n < 10 {
        seq![digit_char(n)]
    } else {
        decimal(n / 10).push(digit_char(n % 10))
    }
}

fn digit_text(d: u32) -> (text: &'static str)
    requires
        d < 10,
    ensures
        text@ == seq![digit_char(d as nat)],
{
    proof {
        reveal_strlit("0");
        reveal_strlit("1");
        reveal_strlit("2");
        reveal_strlit("3");
        reveal_strlit("4");
        reveal_strlit("5");
        reveal_strlit("6");
        reveal_strlit("7");
        reveal_strlit("8");
        reveal_strlit("9");
    }
    let text = if d == 0 {
        "0"
    } else if d == 1 {
        "1"
    } else if d == 2 {
        "2"
    } else if d == 3 {
        "3"
    } else if d == 4 {
        "4"
    } else if d == 5 {
        "5"
    } else if d == 6 {
        "6"
    } else if d == 7 {
        "7"
    } else if d == 8 {
        "8"
    } else {
        "9"
    };
    assert(text@ =~= seq![digit_char(d as nat)]);
    text
}

/// The decimal text of an index, as error values carry it.
pub fn index_text(n: u32) -> (text: String)
    ensures
        text@ == decimal(n as nat),
    decreases n,
{
    if n < 10 {
        String::from_str(digit_text(n))
    } else {
        let mut text = index_text(n / 10);
        text.append(digit_text(n % 10));
        assert(text@ =~= decimal(n as nat));
        text
    }
}


/// The name of a kind of export.
pub open spec fn kind_name(kind: ExternalKind) -> Seq<char> {
    match kind {
        ExternalKind::Func => "function"@,
        ExternalKind::Table => "table"@,
        ExternalKind::Memory => "memory"@,
        ExternalKind::Global => "global"@,
        ExternalKind::Tag => "tag"@,
    }
}

impl Fault {
    /// The failure in words.
    pub open spec fn message(self) -> Seq<char> {
        match self {
            Fault::ExportNotFound(name) => "Export not found: "@ + name,
            Fault::FunctionNotFound(index) => "Function not found: "@ + index,
            Fault::FunctionTypeNotFound(index) => "Function type not found: "@ + index,
            Fault::ExportKindMismatch(expected, actual) => "Export kind is not "@ + kind_name(
                expected,
            ) + ": "@ + kind_name(actual),
            Fault::UnsupportedInstruction(name) => "Unsupported instruction: "@ + name,
            Fault::UnsupportedBlockShape => "Unsupported block shape"@,
            Fault::CodeBufferOverflow => "Code buffer overflow"@,
        }
    }
}

fn kind_text(kind: ExternalKind) -> (text: &'static str)
    ensures
        text@ == kind_name(kind),
{
    match kind {
        ExternalKind::Func => "function",
        ExternalKind::Table => "table",
        ExternalKind::Memory => "memory",
        ExternalKind::Global => "global",
        ExternalKind::Tag => "tag",
    }
}

impl RuntimeError {
    /// The failure in words.
    pub fn message(&self) -> (text: String)
        ensures
            text@ == self@.message(),
    {
        match self {
            RuntimeError::ExportNotFound(name) => String::from_str("Export not found: ").concat(
                name.as_str(),
            ),
            RuntimeError::FunctionNotFound(index) => String::from_str(
                "Function not found: ",
            ).concat(index.as_str()),
            RuntimeError::FunctionTypeNotFound(index) => String::from_str(
                "Function type not found: ",
            ).concat(index.as_str()),
            RuntimeError::ExportKindMismatch(expected, actual) => String::from_str(
                "Export kind is not ",
            ).concat(kind_text(*expected)).concat(": ").concat(kind_text(*actual)),
            RuntimeError::UnsupportedInstruction(name) => String::from_str(
                "Unsupported instruction: ",
            ).concat(name.as_str()),
            RuntimeError::UnsupportedBlockShape => String::from_str("Unsupported block shape"),
            RuntimeError::CodeBufferOverflow => String::from_str("Code buffer overflow"),
        }
    }
}

} // verus!
