//! The assembly text of each command: fixed templates with holes for a
//! number, a base register or a label.

use crate::command::{VmArithmeticCommand, VmSegment};
use crate::decimal::{append_decimal, append_digits, decimal, digits, lemma_digits_injective};
use vstd::prelude::*;

verus! {

/// `add`: replaces the two topmost words by their sum.
pub const ADD_TEXT: &'static str = "@SP\nAM=M-1\nD=M\nA=A-1\nM=D+M\n";

/// `sub`: replaces the two topmost words by the lower one minus the upper one.
pub const SUB_TEXT: &'static str = "@SP\nAM=M-1\nD=M\nA=A-1\nM=M-D\n";

/// `neg`: negates the topmost word.
pub const NEG_TEXT: &'static str = "@SP\nA=M-1\nM=-M\n";

/// `and`: replaces the two topmost words by their bitwise and.
pub const AND_TEXT: &'static str = "@SP\nAM=M-1\nD=M\nA=A-1\nM=D&M\n";

/// `or`: replaces the two topmost words by their bitwise or.
pub const OR_TEXT: &'static str = "@SP\nAM=M-1\nD=M\nA=A-1\nM=D|M\n";

/// `not`: inverts every bit of the topmost word.
pub const NOT_TEXT: &'static str = "@SP\nA=M-1\nM=!M\n";

/// `eq`, up to the label's first use: pops the upper word, takes the
/// difference, and stores false in place of the lower word.
pub const EQ_HEAD: &'static str = "@SP\nAM=M-1\nD=M\nA=A-1\nD=M-D\nM=0\n@";

/// `eq`, between the label's two uses: leaves false in place where the words
/// differ, and stores true else.
pub const EQ_BRANCH: &'static str = "\nD;JNE\n@SP\nA=M-1\nM=-1\n(";

/// `gt` and `lt`, up to the first label: pops the upper word and takes the
/// difference.
pub const COMPARE_HEAD: &'static str = "@SP\nAM=M-1\nD=M\nA=A-1\nD=M-D\n@";

/// The jump of `gt`, taken where the lower word is the greater one.
pub const GT_JUMP: &'static str = "\nD;JGT\n";

/// The jump of `lt`, taken where the lower word is the less one.
pub const LT_JUMP: &'static str = "\nD;JLT\n";

/// `gt` and `lt`, where the jump was not taken: stores false and goes to the
/// end.
pub const COMPARE_FALSE: &'static str = "@SP\nA=M-1\nM=0\n@";

/// `gt` and `lt`: the jump to the end, and the opening of the target of the
/// first jump.
pub const COMPARE_SKIP: &'static str = "\n0;JMP\n(";

/// `gt` and `lt`, where the jump was taken: stores true.
pub const COMPARE_TRUE: &'static str = ")\n@SP\nA=M-1\nM=-1\n(";

/// The end of a label's declaration.
pub const LABEL_CLOSE: &'static str = ")\n";

/// The start of an instruction that loads a number or an address.
pub const AT: &'static str = "@";

/// After a loaded number: takes it as a value.
pub const LOAD_VALUE: &'static str = "\nD=A\n";

/// After a loaded address: takes the word that stands there.
pub const LOAD_WORD: &'static str = "\nD=M\n";

/// After a loaded index: the start of the load of a base register.
pub const INDEX_HEAD: &'static str = "\nD=A\n@";

/// After a base register, the index being at hand: takes the word at base
/// plus index.
pub const FETCH_INDEXED: &'static str = "\nA=D+M\nD=M\n";

/// Puts the word at hand on top of the stack.
pub const PUSH_D: &'static str = "@SP\nA=M\nM=D\n@SP\nM=M+1\n";

/// After a base register, the index being at hand: keeps base plus index
/// aside, pops the topmost word and stores it there.
pub const STORE_INDEXED: &'static str =
    "\nD=D+M\n@R13\nM=D\n@SP\nAM=M-1\nD=M\n@R13\nA=M\nM=D\n";

/// Pops the topmost word, up to the load of the address to store it at.
pub const POP_D: &'static str = "@SP\nAM=M-1\nD=M\n@";

/// After a loaded address: stores the word at hand there.
pub const STORE_WORD: &'static str = "\nM=D\n";

/// The label with number `n` in the namespace `namespace`: the namespace, a
/// dot, and the number in decimal.
pub open spec fn label_text(namespace: Seq<char>, n: nat) -> Seq<char> {
    namespace + seq!['.'] + digits(n)
}

/// How many labels the text of an operation takes: one for `eq`, two for `gt`
/// and `lt`, none for the others.
pub open spec fn labels_used(op: VmArithmeticCommand) -> nat {
    match op {
        VmArithmeticCommand::Eq => 1,
        VmArithmeticCommand::Gt | VmArithmeticCommand::Lt => 2,
        _ => 0,
    }
}

/// The text of `eq`, which jumps to `label_false` where the words differ.
pub open spec fn eq_text(label_false: Seq<char>) -> Seq<char> {
    EQ_HEAD@ + label_false + EQ_BRANCH@ + label_false + LABEL_CLOSE@
}

/// The text of `gt` or `lt`, whose jump is `jump`: it goes to `label_true`
/// where the comparison holds, and both ways meet at `label_end`.
pub open spec fn compare_text(
    jump: Seq<char>,
    label_true: Seq<char>,
    label_end: Seq<char>,
) -> Seq<char> {
    COMPARE_HEAD@ + label_true + jump + COMPARE_FALSE@ + label_end + COMPARE_SKIP@ + label_true
        + COMPARE_TRUE@ + label_end + LABEL_CLOSE@
}

/// The text of an operation, for a translator with the namespace `namespace`
/// whose next label has the number `n`. The labels are taken in the order in
/// which the text names them first.
pub open spec fn arithmetic_text(
    op: VmArithmeticCommand,
    namespace: Seq<char>,
    n: nat,
) -> Seq<char> {
    match op {
        VmArithmeticCommand::Add => ADD_TEXT@,
        VmArithmeticCommand::Sub => SUB_TEXT@,
        VmArithmeticCommand::Neg => NEG_TEXT@,
        VmArithmeticCommand::And => AND_TEXT@,
        VmArithmeticCommand::Or => OR_TEXT@,
        VmArithmeticCommand::Not => NOT_TEXT@,
        VmArithmeticCommand::Eq => eq_text(label_text(namespace, n)),
        VmArithmeticCommand::Gt => compare_text(
            GT_JUMP@,
            label_text(namespace, n),
            label_text(namespace, n + 1),
        ),
        VmArithmeticCommand::Lt => compare_text(
            LT_JUMP@,
            label_text(namespace, n),
            label_text(namespace, n + 1),
        ),
    }
}

/// The register that holds the base address of a segment, for the four
/// segments that have one.
pub open spec fn base_register(segment: VmSegment) -> Option<Seq<char>> {
    match segment {
        VmSegment::Argument => Some("ARG"@),
        VmSegment::Local => Some("LCL"@),
        VmSegment::This => Some("THIS"@),
        VmSegment::That => Some("THAT"@),
        _ => None,
    }
}

/// The address at which a segment starts, for the three segments that stand
/// at a fixed place.
pub open spec fn fixed_base(segment: VmSegment) -> Option<int> {
    match segment {
        VmSegment::Pointer => Some(3),
        VmSegment::Temp => Some(5),
        VmSegment::Static => Some(16),
        _ => None,
    }
}

/// The address of the word with index `index` in a segment that stands at a
/// fixed place: the segment's start plus the index.
pub open spec fn fixed_address(segment: VmSegment, index: i32) -> int
    recommends
        fixed_base(segment) is Some,
{
    fixed_base(segment).unwrap() + index
}

/// Pushes the number whose decimal text is `value`.
pub open spec fn push_constant_text(value: Seq<char>) -> Seq<char> {
    AT@ + value + LOAD_VALUE@ + PUSH_D@
}

/// Pushes the word at the address that `register` holds plus `index`.
pub open spec fn push_segment_text(register: Seq<char>, index: Seq<char>) -> Seq<char> {
    AT@ + index + INDEX_HEAD@ + register + FETCH_INDEXED@ + PUSH_D@
}

/// Pushes the word at the address `address`.
pub open spec fn push_static_text(address: Seq<char>) -> Seq<char> {
    AT@ + address + LOAD_WORD@ + PUSH_D@
}

/// Pops the topmost word to the address that `register` holds plus `index`.
pub open spec fn pop_segment_text(register: Seq<char>, index: Seq<char>) -> Seq<char> {
    AT@ + index + INDEX_HEAD@ + register + STORE_INDEXED@
}

/// Pops the topmost word to the address `address`.
pub open spec fn pop_static_text(address: Seq<char>) -> Seq<char> {
    POP_D@ + address + STORE_WORD@
}

/// The text of `push segment index`.
pub open spec fn push_text(segment: VmSegment, index: i32) -> Seq<char> {
    if segment == VmSegment::Constant {
        push_constant_text(decimal(index as int))
    } else if base_register(segment) is Some {
        push_segment_text(base_register(segment).unwrap(), decimal(index as int))
    } else {
        push_static_text(decimal(fixed_address(segment, index)))
    }
}

/// The text of `pop segment index`; none for the segment `constant`, which is
/// no place to store to.
pub open spec fn pop_text(segment: VmSegment, index: i32) -> Option<Seq<char>> {
    if segment == VmSegment::Constant {
        None
    } else if base_register(segment) is Some {
        Some(pop_segment_text(base_register(segment).unwrap(), decimal(index as int)))
    } else {
        Some(pop_static_text(decimal(fixed_address(segment, index))))
    }
}

/// Labels with different numbers differ, in one namespace.
pub proof fn lemma_label_injective(namespace: Seq<char>, i: nat, j: nat)
    requires
        i != j,
    ensures
        label_text(namespace, i) != label_text(namespace, j),
{
    let prefix = namespace + seq!['.'];
    if label_text(namespace, i) == label_text(namespace, j) {
        assert((prefix + digits(i)).skip(prefix.len() as int) =~= digits(i));
        assert((prefix + digits(j)).skip(prefix.len() as int) =~= digits(j));
        lemma_digits_injective(i, j);
    }
}

/// Appends the label with number `n` in the namespace `namespace`.
pub fn append_label(out: &mut String, namespace: &str, n: usize)
    ensures
        final(out)@ == old(out)@ + label_text(namespace@, n as nat),
{
    proof {
        reveal_strlit(".");
    }
    out.append(namespace);
    out.append(".");
    append_digits(out, n as u64);
    assert(out@ =~= old(out)@ + label_text(namespace@, n as nat));
}

/// Appends the text of `eq` with its label.
pub fn append_eq(out: &mut String, label_false: &str)
    ensures
        final(out)@ == old(out)@ + eq_text(label_false@),
{
    out.append(EQ_HEAD);
    out.append(label_false);
    out.append(EQ_BRANCH);
    out.append(label_false);
    out.append(LABEL_CLOSE);
    assert(out@ =~= old(out)@ + eq_text(label_false@));
}

/// Appends the text of `gt` or `lt`, whose jump is `jump`, with its labels.
pub fn append_compare(out: &mut String, jump: &str, label_true: &str, label_end: &str)
    ensures
        final(out)@ == old(out)@ + compare_text(jump@, label_true@, label_end@),
{
    out.append(COMPARE_HEAD);
    out.append(label_true);
    out.append(jump);
    out.append(COMPARE_FALSE);
    out.append(label_end);
    out.append(COMPARE_SKIP);
    out.append(label_true);
    out.append(COMPARE_TRUE);
    out.append(label_end);
    out.append(LABEL_CLOSE);
    assert(out@ =~= old(out)@ + compare_text(jump@, label_true@, label_end@));
}

/// Appends the text that pushes the number `value`.
pub fn append_push_constant(out: &mut String, value: i64)
    ensures
        final(out)@ == old(out)@ + push_constant_text(decimal(value as int)),
{
    out.append(AT);
    append_decimal(out, value);
    out.append(LOAD_VALUE);
    out.append(PUSH_D);
    assert(out@ =~= old(out)@ + push_constant_text(decimal(value as int)));
}

/// Appends the text that pushes the word at the address that `register`
/// holds plus `index`.
pub fn append_push_segment(out: &mut String, register: &str, index: i64)
    ensures
        final(out)@ == old(out)@ + push_segment_text(register@, decimal(index as int)),
{
    out.append(AT);
    append_decimal(out, index);
    out.append(INDEX_HEAD);
    out.append(register);
    out.append(FETCH_INDEXED);
    out.append(PUSH_D);
    assert(out@ =~= old(out)@ + push_segment_text(register@, decimal(index as int)));
}

/// Appends the text that pushes the word at the address `address`.
pub fn append_push_static(out: &mut String, address: i64)
    ensures
        final(out)@ == old(out)@ + push_static_text(decimal(address as int)),
{
    out.append(AT);
    append_decimal(out, address);
    out.append(LOAD_WORD);
    out.append(PUSH_D);
    assert(out@ =~= old(out)@ + push_static_text(decimal(address as int)));
}

/// Appends the text that pops the topmost word to the address that
/// `register` holds plus `index`.
pub fn append_pop_segment(out: &mut String, register: &str, index: i64)
    ensures
        final(out)@ == old(out)@ + pop_segment_text(register@, decimal(index as int)),
{
    out.append(AT);
    append_decimal(out, index);
    out.append(INDEX_HEAD);
    out.append(register);
    out.append(STORE_INDEXED);
    assert(out@ =~= old(out)@ + pop_segment_text(register@, decimal(index as int)));
}

/// Appends the text that pops the topmost word to the address `address`.
pub fn append_pop_static(out: &mut String, address: i64)
    ensures
        final(out)@ == old(out)@ + pop_static_text(decimal(address as int)),
{
    out.append(POP_D);
    append_decimal(out, address);
    out.append(STORE_WORD);
    assert(out@ =~= old(out)@ + pop_static_text(decimal(address as int)));
}

} // verus!
