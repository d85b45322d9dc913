//! The command model and the parser from a line of text to a command.

use crate::decimal::{i32_literal, parse_i32};
use crate::token::{chars_of, next_token, spells, tokens, tokens_from};
use vstd::prelude::*;
use vstd::string::StrSliceExecFns;

verus! {

/// An operation on the top of the stack.
#[derive(Debug, Clone, Copy, PartialEq, Eq, Structural)]
pub enum VmArithmeticCommand {
    Neg,
    Add,
    Sub,
    Eq,
    Gt,
    Lt,
    Not,
    And,
    Or,
}

/// A named memory region that `push` and `pop` address by an index.
#[derive(Debug, Clone, Copy, PartialEq, Eq, Structural)]
pub enum VmSegment {
    Argument,
    Local,
    Static,
    Constant,
    This,
    That,
    Pointer,
    Temp,
}

/// What one line of the source asks for.
#[derive(Debug, Clone, Copy, PartialEq, Eq, Structural)]
pub enum VmCommand {
    /// A blank line or a comment: nothing.
    NoOp,
    Arithmetic(VmArithmeticCommand),
    Push(VmSegment, i32),
    Pop(VmSegment, i32),
}

/// Why a line cannot be translated.
#[derive(Debug, PartialEq, Eq)]
pub enum VmError {
    /// The first token is no command; holds that token.
    UnknownCommand(String),
    /// The token after `push` or `pop` is no segment; holds that token.
    UnknownSegment(String),
    /// The index is no 32-bit integer in decimal notation; holds that token.
    InvalidInteger(String),
    /// `push` or `pop` without a segment, or without an index.
    MissingOperand,
    /// `pop constant`: a constant is no place to store to.
    PopConstant,
}

/// The mathematical value of a `VmError`: the same variants, each token as a
/// sequence of characters.
pub enum ErrorView {
    UnknownCommand(Seq<char>),
    UnknownSegment(Seq<char>),
    InvalidInteger(Seq<char>),
    MissingOperand,
    PopConstant,
}

/// The class of an error: malformed text, or well-formed text without a
/// meaning.
#[derive(Debug, Clone, Copy, PartialEq, Eq, Structural)]
pub enum ErrorKind {
    Syntax,
    Semantic,
}

impl View for VmError {
    type V = ErrorView;

    open spec fn view(&self) -> ErrorView {
        match self {
            VmError::UnknownCommand(t) => ErrorView::UnknownCommand(t@),
            VmError::UnknownSegment(t) => ErrorView::UnknownSegment(t@),
            VmError::InvalidInteger(t) => ErrorView::InvalidInteger(t@),
            VmError::MissingOperand => ErrorView::MissingOperand,
            VmError::PopConstant => ErrorView::PopConstant,
        }
    }
}

impl ErrorView {
    /// `pop constant` is the one semantic error; the others are syntax errors.
    pub open spec fn kind(self) -> ErrorKind {
        match self {
            ErrorView::PopConstant => ErrorKind::Semantic,
            _ => ErrorKind::Syntax,
        }
    }

    /// The text that describes the error to a reader.
    pub open spec fn message(self) -> Seq<char> {
        match self {
            ErrorView::UnknownCommand(t) => "unknown command: "@ + t,
            ErrorView::UnknownSegment(t) => "unknown segment: "@ + t,
            ErrorView::InvalidInteger(t) => "invalid integer: "@ + t,
            ErrorView::MissingOperand => "missing operand"@,
            ErrorView::PopConstant => "thou shall not use 'pop constant'"@,
        }
    }
}

impl VmError {
    /// The class of this error.
    pub fn kind(&self) -> (k: ErrorKind)
        ensures
            k == self@.kind(),
    {
        match self {
            VmError::PopConstant => ErrorKind::Semantic,
            _ => ErrorKind::Syntax,
        }
    }

    /// The text that describes this error to a reader.
    pub fn message(&self) -> (m: String)
        ensures
            m@ == self@.message(),
    {
        match self {
            VmError::UnknownCommand(t) => "unknown command: ".to_owned().concat(t.as_str()),
            VmError::UnknownSegment(t) => "unknown segment: ".to_owned().concat(t.as_str()),
            VmError::InvalidInteger(t) => "invalid integer: ".to_owned().concat(t.as_str()),
            VmError::MissingOperand => "missing operand".to_owned(),
            VmError::PopConstant => "thou shall not use 'pop constant'".to_owned(),
        }
    }
}

/// A result with its error, if it is one, as a mathematical value.
pub open spec fn result_view<T>(r: Result<T, VmError>) -> Result<T, ErrorView> {
    match r {
        Ok(v) => Ok(v),
        Err(e) => Err(e@),
    }
}

/// The keyword of an operation.
pub open spec fn arithmetic_keyword(op: VmArithmeticCommand) -> Seq<char> {
    match op {
        VmArithmeticCommand::Neg => "neg"@,
        VmArithmeticCommand::Add => "add"@,
        VmArithmeticCommand::Sub => "sub"@,
        VmArithmeticCommand::Eq => "eq"@,
        VmArithmeticCommand::Gt => "gt"@,
        VmArithmeticCommand::Lt => "lt"@,
        VmArithmeticCommand::Not => "not"@,
        VmArithmeticCommand::And => "and"@,
        VmArithmeticCommand::Or => "or"@,
    }
}

/// The keyword of a segment.
pub open spec fn segment_keyword(segment: VmSegment) -> Seq<char> {
    match segment {
        VmSegment::Argument => "argument"@,
        VmSegment::Local => "local"@,
        VmSegment::Static => "static"@,
        VmSegment::Constant => "constant"@,
        VmSegment::This => "this"@,
        VmSegment::That => "that"@,
        VmSegment::Pointer => "pointer"@,
        VmSegment::Temp => "temp"@,
    }
}

/// The operation that the keyword `t` names, if it names one. Keywords are
/// lower case and have no other spelling.
pub open spec fn arithmetic_of(t: Seq<char>) -> Option<VmArithmeticCommand> {
    if t == "neg"@ {
        Some(VmArithmeticCommand::Neg)
    } else if t == "add"@ {
        Some(VmArithmeticCommand::Add)
    } else if t == "sub"@ {
        Some(VmArithmeticCommand::Sub)
    } else if t == "eq"@ {
        Some(VmArithmeticCommand::Eq)
    } else if t == "gt"@ {
        Some(VmArithmeticCommand::Gt)
    } else if t == "lt"@ {
        Some(VmArithmeticCommand::Lt)
    } else if t == "not"@ {
        Some(VmArithmeticCommand::Not)
    } else if t == "and"@ {
        Some(VmArithmeticCommand::And)
    } else if t == "or"@ {
        Some(VmArithmeticCommand::Or)
    } else {
        None
    }
}

/// The segment that the keyword `t` names, if it names one. Keywords are
/// lower case and have no other spelling.
pub open spec fn segment_of(t: Seq<char>) -> Option<VmSegment> {
    if t == "argument"@ {
        Some(VmSegment::Argument)
    } else if t == "local"@ {
        Some(VmSegment::Local)
    } else if t == "static"@ {
        Some(VmSegment::Static)
    } else if t == "constant"@ {
        Some(VmSegment::Constant)
    } else if t == "this"@ {
        Some(VmSegment::This)
    } else if t == "that"@ {
        Some(VmSegment::That)
    } else if t == "pointer"@ {
        Some(VmSegment::Pointer)
    } else if t == "temp"@ {
        Some(VmSegment::Temp)
    } else {
        None
    }
}

/// The segment and the index that follow `push` or `pop` in the tokens `t` of
/// a line. The segment is looked at first: an unknown segment is reported
/// even where the index is missing too. Tokens after the index are ignored.
pub open spec fn operands_of(t: Seq<Seq<char>>) -> Result<(VmSegment, i32), ErrorView> {
    if t.len() < 2 {
        Err(ErrorView::MissingOperand)
    } else if segment_of(t[1]) is None {
        Err(ErrorView::UnknownSegment(t[1]))
    } else if t.len() < 3 {
        Err(ErrorView::MissingOperand)
    } else if i32_literal(t[2]) is None {
        Err(ErrorView::InvalidInteger(t[2]))
    } else {
        Ok((segment_of(t[1]).unwrap(), i32_literal(t[2]).unwrap()))
    }
}

/// The command that the tokens `t` of a line spell. No token, or `//` as the
/// first token, is no command at all; an operation's keyword alone decides,
/// whatever follows it; `push` and `pop` take a segment and an index; any
/// other first token is an error.
pub open spec fn command_of(t: Seq<Seq<char>>) -> Result<VmCommand, ErrorView> {
    if t.len() == 0 || t[0] == "//"@ {
        Ok(VmCommand::NoOp)
    } else if arithmetic_of(t[0]) is Some {
        Ok(VmCommand::Arithmetic(arithmetic_of(t[0]).unwrap()))
    } else if t[0] == "push"@ {
        match operands_of(t) {
            Ok((segment, index)) => Ok(VmCommand::Push(segment, index)),
            Err(e) => Err(e),
        }
    } else if t[0] == "pop"@ {
        match operands_of(t) {
            Ok((segment, index)) => Ok(VmCommand::Pop(segment, index)),
            Err(e) => Err(e),
        }
    } else {
        Err(ErrorView::UnknownCommand(t[0]))
    }
}

/// The command that a line of text spells.
pub open spec fn line_command(line: Seq<char>) -> Result<VmCommand, ErrorView> {
    command_of(tokens(line))
}

/// Resolves an operation's keyword.
pub fn parse_vmarithmetic(keyword: &str) -> (r: Option<VmArithmeticCommand>)
    ensures
        r == arithmetic_of(keyword@),
{
    let word = chars_of(keyword);
    let n = word.len();
    assert(word@.subrange(0, n as int) =~= keyword@);
    if spells(&word, 0, n, "neg") {
        Some(VmArithmeticCommand::Neg)
    } else if spells(&word, 0, n, "add") {
        Some(VmArithmeticCommand::Add)
    } else if spells(&word, 0, n, "sub") {
        Some(VmArithmeticCommand::Sub)
    } else if spells(&word, 0, n, "eq") {
        Some(VmArithmeticCommand::Eq)
    } else if spells(&word, 0, n, "gt") {
        Some(VmArithmeticCommand::Gt)
    } else if spells(&word, 0, n, "lt") {
        Some(VmArithmeticCommand::Lt)
    } else if spells(&word, 0, n, "not") {
        Some(VmArithmeticCommand::Not)
    } else if spells(&word, 0, n, "and") {
        Some(VmArithmeticCommand::And)
    } else if spells(&word, 0, n, "or") {
        Some(VmArithmeticCommand::Or)
    } else {
        None
    }
}

/// Resolves a segment's keyword; any other token is an error that holds it.
pub fn parse_vmsegment(segment: &str) -> (r: Result<VmSegment, VmError>)
    ensures
        result_view(r) == match segment_of(segment@) {
            Some(s) => Ok::<VmSegment, ErrorView>(s),
            None => Err(ErrorView::UnknownSegment(segment@)),
        },
{
    let word = chars_of(segment);
    let n = word.len();
    assert(word@.subrange(0, n as int) =~= segment@);
    if spells(&word, 0, n, "argument") {
        Ok(VmSegment::Argument)
    } else if spells(&word, 0, n, "local") {
        Ok(VmSegment::Local)
    } else if spells(&word, 0, n, "static") {
        Ok(VmSegment::Static)
    } else if spells(&word, 0, n, "constant") {
        Ok(VmSegment::Constant)
    } else if spells(&word, 0, n, "this") {
        Ok(VmSegment::This)
    } else if spells(&word, 0, n, "that") {
        Ok(VmSegment::That)
    } else if spells(&word, 0, n, "pointer") {
        Ok(VmSegment::Pointer)
    } else if spells(&word, 0, n, "temp") {
        Ok(VmSegment::Temp)
    } else {
        Err(VmError::UnknownSegment(segment.to_owned()))
    }
}

/// Reads the segment and the index that follow `push` or `pop`, whose own
/// token ends at `from`.
fn parse_operands(
    line: &str,
    chars: &Vec<char>,
    from: usize,
) -> (r: Result<(VmSegment, i32), VmError>)
    requires
        chars@ == line@,
        0 < from <= chars.len(),
        tokens(line@).len() > 0,
        tokens(line@) == seq![tokens(line@)[0]] + tokens_from(line@, from as int),
    ensures
        result_view(r) == operands_of(tokens(line@)),
{
    let ghost t = tokens(line@);
    let (s1, e1) = next_token(chars, from);
    if s1 == e1 {
        return Err(VmError::MissingOperand);
    }
    assert(t[1] == line@.subrange(s1 as int, e1 as int));
    let segment = parse_vmsegment(line.substring_char(s1, e1))?;
    let (s2, e2) = next_token(chars, e1);
    if s2 == e2 {
        assert(t.len() == 2);
        return Err(VmError::MissingOperand);
    }
    assert(t[2] == line@.subrange(s2 as int, e2 as int));
    let digits = line.substring_char(s2, e2);
    match parse_i32(digits) {
        Some(index) => Ok((segment, index)),
        None => Err(VmError::InvalidInteger(digits.to_owned())),
    }
}

/// Reads one line of the source.
pub fn parse_line(line: &str) -> (r: Result<VmCommand, VmError>)
    ensures
        result_view(r) == line_command(line@),
{
    let chars = chars_of(line);
    let ghost t = tokens(line@);
    let (s0, e0) = next_token(&chars, 0);
    if s0 == e0 || spells(&chars, s0, e0, "//") {
        return Ok(VmCommand::NoOp);
    }
    assert(t[0] == line@.subrange(s0 as int, e0 as int));
    assert(t =~= seq![t[0]] + tokens_from(line@, e0 as int));
    let first = line.substring_char(s0, e0);
    match parse_vmarithmetic(first) {
        Some(op) => {
            return Ok(VmCommand::Arithmetic(op));
        },
        None => {},
    }
    if spells(&chars, s0, e0, "push") {
        match parse_operands(line, &chars, e0) {
            Ok((segment, index)) => Ok(VmCommand::Push(segment, index)),
            Err(e) => Err(e),
        }
    } else if spells(&chars, s0, e0, "pop") {
        match parse_operands(line, &chars, e0) {
            Ok((segment, index)) => Ok(VmCommand::Pop(segment, index)),
            Err(e) => Err(e),
        }
    } else {
        Err(VmError::UnknownCommand(first.to_owned()))
    }
}

} // verus!
