//! The closed set of roles an interned string can play, with the
//! payload each role carries. Every consumption site matches
//! exhaustively, so a new role cannot be silently mishandled.

use vstd::prelude::*;

verus! {

/// A directive word of an inclusion-stack control file.
#[derive(Clone, Copy, Debug, PartialEq, Eq, Structural)]
pub enum AuxCommand {
    Data,
    Style,
    Citation,
    Input,
}

/// A command word of the style-instruction language.
#[derive(Clone, Copy, Debug, PartialEq, Eq, Structural)]
pub enum BstCommand {
    Entry,
    Execute,
    Function,
    Integers,
    Iterate,
    Macro,
    Read,
    Reverse,
    Sort,
    Strings,
}

/// A command word of the bibliography database language.
#[derive(Clone, Copy, Debug, PartialEq, Eq, Structural)]
pub enum BibCommand {
    Comment,
    Preamble,
    String,
}

/// A control sequence recognized inside brace-level text.
#[derive(Clone, Copy, Debug, PartialEq, Eq, Structural)]
pub enum ControlSeq {
    LowerI,
    LowerJ,
    UpperOe,
    LowerOe,
    UpperAe,
    LowerAe,
    UpperAa,
    LowerAa,
    UpperO,
    LowerO,
    UpperL,
    LowerL,
    LowerSs,
}

/// A built-in operation of the style-instruction language.
#[derive(Clone, Copy, Debug, PartialEq, Eq, Structural)]
pub enum BstBuiltin {
    Eq,
    Gt,
    Lt,
    Plus,
    Minus,
    Concat,
    Assign,
    AddPeriod,
    CallType,
    ChangeCase,
    ChrToInt,
    Cite,
    Duplicate,
    Empty,
    FormatName,
    If,
    IntToChr,
    IntToStr,
    Missing,
    Newline,
    NumNames,
    Pop,
    Preamble,
    Purify,
    Quote,
    Skip,
    Stack,
    Substring,
    Swap,
    TextLength,
    TextPrefix,
    Top,
    Type,
    Warning,
    While,
    Width,
    Write,
}

/// A callable-function reference: a built-in operation, a
/// user-defined function body location, an accessor, or a global
/// variable reference.
#[derive(Clone, Copy, Debug, PartialEq, Eq, Structural)]
pub enum BstFn {
    Builtin(BstBuiltin),
    Wizard(usize),
    Field(usize),
    IntEntry(usize),
    StrEntry(usize),
    IntGlbl(i64),
    StrGlbl(usize),
}

/// The tagged payload stored with an interned string: exactly one
/// role for the string's whole lifetime.
#[derive(Clone, Copy, Debug, PartialEq, Eq, Structural)]
pub enum HashExtra {
    Text,
    Integer(i64),
    AuxCommand(AuxCommand),
    AuxFile,
    BstCommand(BstCommand),
    BstFile,
    BibFile,
    FileExt,
    Cite(usize),
    LcCite(usize),
    BstFn(BstFn),
    BibCommand(BibCommand),
    Macro(usize),
    ControlSeq(ControlSeq),
}

/// The role discriminant alone, without the payload.
#[derive(Clone, Copy, Debug, PartialEq, Eq, PartialOrd, Ord, Hash, Structural)]
pub enum StrIlk {
    Text,
    Integer,
    AuxCommand,
    AuxFile,
    BstCommand,
    BstFile,
    BibFile,
    FileExt,
    Cite,
    LcCite,
    BstFn,
    BibCommand,
    Macro,
    ControlSeq,
}

/// The discriminant of a payload.
pub open spec fn kind_of(e: HashExtra) -> StrIlk {
    match e {
        HashExtra::Text => StrIlk::Text,
        HashExtra::Integer(_) => StrIlk::Integer,
        HashExtra::AuxCommand(_) => StrIlk::AuxCommand,
        HashExtra::AuxFile => StrIlk::AuxFile,
        HashExtra::BstCommand(_) => StrIlk::BstCommand,
        HashExtra::BstFile => StrIlk::BstFile,
        HashExtra::BibFile => StrIlk::BibFile,
        HashExtra::FileExt => StrIlk::FileExt,
        HashExtra::Cite(_) => StrIlk::Cite,
        HashExtra::LcCite(_) => StrIlk::LcCite,
        HashExtra::BstFn(_) => StrIlk::BstFn,
        HashExtra::BibCommand(_) => StrIlk::BibCommand,
        HashExtra::Macro(_) => StrIlk::Macro,
        HashExtra::ControlSeq(_) => StrIlk::ControlSeq,
    }
}

impl HashExtra {
    /// The role discriminant of this payload.
    pub fn kind(&self) -> (r: StrIlk)
        ensures
            r == kind_of(*self),
    {
        match self {
            HashExtra::Text => StrIlk::Text,
            HashExtra::Integer(_) => StrIlk::Integer,
            HashExtra::AuxCommand(_) => StrIlk::AuxCommand,
            HashExtra::AuxFile => StrIlk::AuxFile,
            HashExtra::BstCommand(_) => StrIlk::BstCommand,
            HashExtra::BstFile => StrIlk::BstFile,
            HashExtra::BibFile => StrIlk::BibFile,
            HashExtra::FileExt => StrIlk::FileExt,
            HashExtra::Cite(_) => StrIlk::Cite,
            HashExtra::LcCite(_) => StrIlk::LcCite,
            HashExtra::BstFn(_) => StrIlk::BstFn,
            HashExtra::BibCommand(_) => StrIlk::BibCommand,
            HashExtra::Macro(_) => StrIlk::Macro,
            HashExtra::ControlSeq(_) => StrIlk::ControlSeq,
        }
    }
}

} // verus!
