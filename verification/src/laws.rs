//! What holds of the translation as a whole, proved from the definitions of
//! the other modules.

use crate::command::{
    arithmetic_keyword, arithmetic_of, line_command, segment_keyword, segment_of, ErrorKind,
    ErrorView, VmArithmeticCommand, VmCommand, VmSegment,
};
use crate::decimal::{decimal, i32_literal, is_digit, lemma_decimal_round_trip, signed_value};
use crate::template::{
    arithmetic_text, fixed_address, label_text, labels_used, lemma_label_injective, pop_static_text,
    pop_text, push_static_text, push_text,
};
use crate::token::{
    is_blank, is_space, is_word, lemma_blank_has_no_tokens, lemma_padded_word, lemma_three_words,
    tokens,
};
use crate::vm::{
    command_fault, first_fault, labels_before, lemma_first_fault, line_fault, line_labels,
    line_text, source_fault, source_labels, source_text, text_before,
};
use vstd::prelude::*;

verus! {

/// Whether an operation compares the two topmost words.
pub open spec fn is_comparison(op: VmArithmeticCommand) -> bool {
    op == VmArithmeticCommand::Eq || op == VmArithmeticCommand::Gt || op == VmArithmeticCommand::Lt
}

/// How many of the first `k` lines spell a comparison.
pub open spec fn comparisons_before(lines: Seq<Seq<char>>, k: int) -> nat
    decreases k,
{
    if k <= 0 {
        0
    } else {
        comparisons_before(lines, k - 1) + match line_command(lines[k - 1]) {
            Ok(VmCommand::Arithmetic(op)) => if is_comparison(op) {
                1nat
            } else {
                0nat
            },
            _ => 0nat,
        }
    }
}

/// The `slot`-th label of line `i`, counted from 0, in a translation that
/// starts with the label number `n`.
pub open spec fn label_at(
    lines: Seq<Seq<char>>,
    namespace: Seq<char>,
    n: nat,
    i: int,
    slot: nat,
) -> Seq<char> {
    label_text(namespace, n + labels_before(lines, i) + slot)
}

proof fn reveal_arithmetic_keywords()
    ensures
        "neg"@ == seq!['n', 'e', 'g'],
        "add"@ == seq!['a', 'd', 'd'],
        "sub"@ == seq!['s', 'u', 'b'],
        "eq"@ == seq!['e', 'q'],
        "gt"@ == seq!['g', 't'],
        "lt"@ == seq!['l', 't'],
        "not"@ == seq!['n', 'o', 't'],
        "and"@ == seq!['a', 'n', 'd'],
        "or"@ == seq!['o', 'r'],
        "//"@ == seq!['/', '/'],
{
    reveal_strlit("neg");
    reveal_strlit("add");
    reveal_strlit("sub");
    reveal_strlit("eq");
    reveal_strlit("gt");
    reveal_strlit("lt");
    reveal_strlit("not");
    reveal_strlit("and");
    reveal_strlit("or");
    reveal_strlit("//");
    assert("neg"@ =~= seq!['n', 'e', 'g']);
    assert("add"@ =~= seq!['a', 'd', 'd']);
    assert("sub"@ =~= seq!['s', 'u', 'b']);
    assert("eq"@ =~= seq!['e', 'q']);
    assert("gt"@ =~= seq!['g', 't']);
    assert("lt"@ =~= seq!['l', 't']);
    assert("not"@ =~= seq!['n', 'o', 't']);
    assert("and"@ =~= seq!['a', 'n', 'd']);
    assert("or"@ =~= seq!['o', 'r']);
    assert("//"@ =~= seq!['/', '/']);
}

proof fn reveal_segment_keywords()
    ensures
        "argument"@ == seq!['a', 'r', 'g', 'u', 'm', 'e', 'n', 't'],
        "local"@ == seq!['l', 'o', 'c', 'a', 'l'],
        "static"@ == seq!['s', 't', 'a', 't', 'i', 'c'],
        "constant"@ == seq!['c', 'o', 'n', 's', 't', 'a', 'n', 't'],
        "this"@ == seq!['t', 'h', 'i', 's'],
        "that"@ == seq!['t', 'h', 'a', 't'],
        "pointer"@ == seq!['p', 'o', 'i', 'n', 't', 'e', 'r'],
        "temp"@ == seq!['t', 'e', 'm', 'p'],
{
    reveal_strlit("argument");
    reveal_strlit("local");
    reveal_strlit("static");
    reveal_strlit("constant");
    reveal_strlit("this");
    reveal_strlit("that");
    reveal_strlit("pointer");
    reveal_strlit("temp");
    assert("argument"@ =~= seq!['a', 'r', 'g', 'u', 'm', 'e', 'n', 't']);
    assert("local"@ =~= seq!['l', 'o', 'c', 'a', 'l']);
    assert("static"@ =~= seq!['s', 't', 'a', 't', 'i', 'c']);
    assert("constant"@ =~= seq!['c', 'o', 'n', 's', 't', 'a', 'n', 't']);
    assert("this"@ =~= seq!['t', 'h', 'i', 's']);
    assert("that"@ =~= seq!['t', 'h', 'a', 't']);
    assert("pointer"@ =~= seq!['p', 'o', 'i', 'n', 't', 'e', 'r']);
    assert("temp"@ =~= seq!['t', 'e', 'm', 'p']);
}

/// Each operation's keyword is a word other than the comment marker, it
/// names that operation, and it is the only token that does.
pub proof fn lemma_arithmetic_keyword(op: VmArithmeticCommand)
    ensures
        is_word(arithmetic_keyword(op)),
        arithmetic_keyword(op) != "//"@,
        arithmetic_of(arithmetic_keyword(op)) == Some(op),
        forall|t: Seq<char>| arithmetic_of(t) == Some(op) ==> t == arithmetic_keyword(op),
{
    reveal_arithmetic_keywords();
    let k = arithmetic_keyword(op);
    assert(k[0] != '/');
    assert(k.len() == 2 || k.len() == 3);
    assert(forall|i: int| 0 <= i < k.len() ==> !is_space(#[trigger] k[i]));
    assert("neg"@[1] != "add"@[1] && "neg"@[1] != "sub"@[1] && "neg"@[2] != "not"@[2] && "neg"@[0]
        != "and"@[0]);
    assert("add"@[0] != "sub"@[0] && "add"@[0] != "not"@[0] && "add"@[1] != "and"@[1]);
    assert("sub"@[0] != "not"@[0] && "sub"@[0] != "and"@[0]);
    assert("not"@[0] != "and"@[0]);
    assert("eq"@[0] != "gt"@[0] && "eq"@[0] != "lt"@[0] && "eq"@[0] != "or"@[0]);
    assert("gt"@[0] != "lt"@[0] && "gt"@[0] != "or"@[0]);
    assert("lt"@[0] != "or"@[0]);
}

/// Each segment's keyword names that segment, and it is the only token that
/// does.
pub proof fn lemma_segment_keyword(segment: VmSegment)
    ensures
        is_word(segment_keyword(segment)),
        segment_of(segment_keyword(segment)) == Some(segment),
        forall|t: Seq<char>| segment_of(t) == Some(segment) ==> t == segment_keyword(segment),
{
    reveal_segment_keywords();
    let k = segment_keyword(segment);
    assert(4 <= k.len() <= 8);
    assert(forall|i: int| 0 <= i < k.len() ==> !is_space(#[trigger] k[i]));
    assert("argument"@[0] != "constant"@[0]);
    assert("this"@[2] != "that"@[2] && "this"@[1] != "temp"@[1] && "that"@[1] != "temp"@[1]);
}

/// To resolve a token twice gives the same answer twice: what a token names
/// depends on its characters alone, so two tokens with the same characters
/// name the same segment, and the same operation.
pub proof fn lemma_resolution_repeats(first: &str, second: &str)
    requires
        first@ == second@,
    ensures
        segment_of(first@) == segment_of(second@),
        arithmetic_of(first@) == arithmetic_of(second@),
{
}

/// A line that holds an operation's keyword and nothing else but blanks
/// spells that operation. For a source of that one line alone, with the
/// label count at 0, the output is the operation's text, with the labels 0
/// and 1 of the namespace where it names labels, and the count rises by as
/// many labels as the text names.
pub proof fn lemma_operation_alone(
    op: VmArithmeticCommand,
    lead: Seq<char>,
    trail: Seq<char>,
    namespace: Seq<char>,
)
    requires
        is_blank(lead),
        is_blank(trail),
    ensures
        line_command(lead + arithmetic_keyword(op) + trail) == Ok::<VmCommand, ErrorView>(
            VmCommand::Arithmetic(op),
        ),
        ({
            let source = seq![lead + arithmetic_keyword(op) + trail];
            &&& first_fault(source, 0) == 1
            &&& text_before(source, namespace, 0, 1) == arithmetic_text(op, namespace, 0)
            &&& labels_before(source, 1) == labels_used(op)
        }),
{
    let line = lead + arithmetic_keyword(op) + trail;
    let source = seq![line];
    lemma_arithmetic_keyword(op);
    lemma_padded_word(lead, arithmetic_keyword(op), trail);
    assert(tokens(line)[0] == arithmetic_keyword(op));
    assert(line_command(line) == Ok::<VmCommand, ErrorView>(VmCommand::Arithmetic(op)));
    assert(line_fault(source[0]) is None);
    assert(first_fault(source, 1) == 1);
    assert(labels_before(source, 0) == 0);
    assert(text_before(source, namespace, 0, 0) =~= Seq::<char>::empty());
    assert(text_before(source, namespace, 0, 1) =~= arithmetic_text(op, namespace, 0));
}

/// In the segments `pointer`, `temp` and `static` the word with the index
/// `index` stands at the address 3, 5 and 16 plus `index`, and `push` and
/// `pop` address it alike.
pub proof fn lemma_fixed_segment_address(segment: VmSegment, index: i32)
    requires
        segment == VmSegment::Pointer || segment == VmSegment::Temp || segment
            == VmSegment::Static,
    ensures
        segment == VmSegment::Pointer ==> fixed_address(segment, index) == 3 + index,
        segment == VmSegment::Temp ==> fixed_address(segment, index) == 5 + index,
        segment == VmSegment::Static ==> fixed_address(segment, index) == 16 + index,
        push_text(segment, index) == push_static_text(decimal(fixed_address(segment, index))),
        pop_text(segment, index) == Some(
            pop_static_text(decimal(fixed_address(segment, index))),
        ),
{
}

/// A token that denotes an integer is a word.
pub proof fn lemma_literal_is_word(t: Seq<char>)
    requires
        signed_value(t) is Some,
    ensures
        is_word(t),
{
    let signed = t.len() > 0 && (t[0] == '-' || t[0] == '+');
    assert forall|i: int| 0 <= i < t.len() implies !is_space(#[trigger] t[i]) by {
        if signed && i > 0 {
            assert(is_digit(t.skip(1)[i - 1]));
        } else if !signed {
            assert(is_digit(t[i]));
        }
    }
}

/// `push`, a segment's keyword and an integer, with blanks between them and
/// blanks or nothing around them, spell the push of that integer to that
/// segment, however the integer is written.
pub proof fn lemma_push_spelling(
    segment: VmSegment,
    number: Seq<char>,
    index: i32,
    lead: Seq<char>,
    gap: Seq<char>,
    space: Seq<char>,
    trail: Seq<char>,
)
    requires
        i32_literal(number) == Some(index),
        is_blank(lead),
        is_blank(gap) && gap.len() > 0,
        is_blank(space) && space.len() > 0,
        is_blank(trail),
    ensures
        line_command(lead + "push"@ + gap + segment_keyword(segment) + space + number + trail)
            == Ok::<VmCommand, ErrorView>(VmCommand::Push(segment, index)),
{
    reveal_arithmetic_keywords();
    reveal_strlit("push");
    let word = "push"@;
    assert(word.len() == 4 && word[0] == 'p' && word[1] == 'u' && word[2] == 's' && word[3]
        == 'h');
    assert(is_word(word));
    assert(arithmetic_of(word) is None);
    lemma_segment_keyword(segment);
    lemma_literal_is_word(number);
    lemma_three_words(lead, word, gap, segment_keyword(segment), space, number, trail);
}

/// `pop`, a segment's keyword and an integer, with blanks between them and
/// blanks or nothing around them, spell the pop to that integer's place in
/// that segment, however the integer is written.
pub proof fn lemma_pop_spelling(
    segment: VmSegment,
    number: Seq<char>,
    index: i32,
    lead: Seq<char>,
    gap: Seq<char>,
    space: Seq<char>,
    trail: Seq<char>,
)
    requires
        i32_literal(number) == Some(index),
        is_blank(lead),
        is_blank(gap) && gap.len() > 0,
        is_blank(space) && space.len() > 0,
        is_blank(trail),
    ensures
        line_command(lead + "pop"@ + gap + segment_keyword(segment) + space + number + trail)
            == Ok::<VmCommand, ErrorView>(VmCommand::Pop(segment, index)),
{
    reveal_arithmetic_keywords();
    reveal_strlit("pop");
    reveal_strlit("push");
    let word = "pop"@;
    assert(word.len() == 3 && word[0] == 'p' && word[1] == 'o' && word[2] == 'p');
    assert(is_word(word));
    assert(arithmetic_of(word) is None);
    assert(word != "push"@);
    lemma_segment_keyword(segment);
    lemma_literal_is_word(number);
    lemma_three_words(lead, word, gap, segment_keyword(segment), space, number, trail);
}

/// Every command but the empty one has a line that spells it: its keyword
/// alone for an operation; for a push or a pop the keyword, the segment and
/// the index in decimal, with one space between them.
pub proof fn lemma_every_command_is_spelled(command: VmCommand)
    ensures
        match command {
            VmCommand::NoOp => line_command(Seq::empty()) == Ok::<VmCommand, ErrorView>(command),
            VmCommand::Arithmetic(op) => line_command(arithmetic_keyword(op)) == Ok::<
                VmCommand,
                ErrorView,
            >(command),
            VmCommand::Push(segment, index) => line_command(
                "push"@ + seq![' '] + segment_keyword(segment) + seq![' '] + decimal(index as int),
            ) == Ok::<VmCommand, ErrorView>(command),
            VmCommand::Pop(segment, index) => line_command(
                "pop"@ + seq![' '] + segment_keyword(segment) + seq![' '] + decimal(index as int),
            ) == Ok::<VmCommand, ErrorView>(command),
        },
{
    let none = Seq::<char>::empty();
    let one = seq![' '];
    match command {
        VmCommand::NoOp => {
            lemma_blank_has_no_tokens(none);
        },
        VmCommand::Arithmetic(op) => {
            lemma_operation_alone(op, none, none, none);
            assert(none + arithmetic_keyword(op) + none =~= arithmetic_keyword(op));
        },
        VmCommand::Push(segment, index) => {
            let number = decimal(index as int);
            lemma_decimal_round_trip(index);
            lemma_push_spelling(segment, number, index, none, one, one, none);
            assert(none + "push"@ + one + segment_keyword(segment) + one + number + none =~= "push"@
                + one + segment_keyword(segment) + one + number);
        },
        VmCommand::Pop(segment, index) => {
            let number = decimal(index as int);
            lemma_decimal_round_trip(index);
            lemma_pop_spelling(segment, number, index, none, one, one, none);
            assert(none + "pop"@ + one + segment_keyword(segment) + one + number + none =~= "pop"@
                + one + segment_keyword(segment) + one + number);
        },
    }
}

/// `pop constant` with any 32-bit integer, however it is written, is an
/// error of meaning and has no text: the line has that error, takes no label,
/// and a source that begins with it has that error and an empty text.
pub proof fn lemma_pop_constant(
    number: Seq<char>,
    lead: Seq<char>,
    gap: Seq<char>,
    space: Seq<char>,
    trail: Seq<char>,
    rest: Seq<Seq<char>>,
    namespace: Seq<char>,
    n: nat,
)
    requires
        i32_literal(number) is Some,
        is_blank(lead),
        is_blank(gap) && gap.len() > 0,
        is_blank(space) && space.len() > 0,
        is_blank(trail),
    ensures
        ({
            let line = lead + "pop"@ + gap + "constant"@ + space + number + trail;
            &&& line_fault(line) == Some(ErrorView::PopConstant)
            &&& ErrorView::PopConstant.kind() == ErrorKind::Semantic
            &&& line_text(line, namespace, n) == Seq::<char>::empty()
            &&& line_labels(line) == 0
            &&& source_fault(seq![line] + rest) == Some(ErrorView::PopConstant)
            &&& source_text(seq![line] + rest, namespace, n) == Seq::<char>::empty()
            &&& source_labels(seq![line] + rest) == 0
        }),
{
    let index = i32_literal(number).unwrap();
    lemma_pop_spelling(VmSegment::Constant, number, index, lead, gap, space, trail);
    let line = lead + "pop"@ + gap + "constant"@ + space + number + trail;
    assert(command_fault(VmCommand::Pop(VmSegment::Constant, index)) == Some(
        ErrorView::PopConstant,
    ));
    assert((seq![line] + rest)[0] == line);
}

/// A blank line, and a line whose first token is the comment marker `//`,
/// have no error, no text and no label.
pub proof fn lemma_blank_and_comment_lines(line: Seq<char>, namespace: Seq<char>, n: nat)
    requires
        is_blank(line) || (tokens(line).len() > 0 && tokens(line)[0] == "//"@),
    ensures
        line_command(line) == Ok::<VmCommand, ErrorView>(VmCommand::NoOp),
        line_fault(line) is None,
        line_text(line, namespace, n).len() == 0,
        line_labels(line) == 0,
{
    if is_blank(line) {
        lemma_blank_has_no_tokens(line);
    }
}

/// The count of labels never falls from one line to the next, and each line
/// leaves it above every label of its own.
pub proof fn lemma_labels_rise(lines: Seq<Seq<char>>, i: int, j: int)
    requires
        0 <= i < j,
    ensures
        labels_before(lines, i) + line_labels(lines[i]) <= labels_before(lines, j),
    decreases j,
{
    if j > i + 1 {
        lemma_labels_rise(lines, i, j - 1);
    }
}

/// No label is used twice in one translation: two labels of one line differ,
/// and so do the labels of two different lines, whatever operations the lines
/// spell.
pub proof fn lemma_labels_never_repeat(
    lines: Seq<Seq<char>>,
    namespace: Seq<char>,
    n: nat,
    i: int,
    a: nat,
    j: int,
    b: nat,
)
    requires
        0 <= i <= j < lines.len(),
        a < line_labels(lines[i]),
        b < line_labels(lines[j]),
        i != j || a != b,
    ensures
        label_at(lines, namespace, n, i, a) != label_at(lines, namespace, n, j, b),
{
    if i < j {
        lemma_labels_rise(lines, i, j);
    }
    lemma_label_injective(
        namespace,
        n + labels_before(lines, i) + a,
        n + labels_before(lines, j) + b,
    );
}

/// Each comparison takes at least one label and at most two, so a source
/// with K comparisons in its first `k` lines takes at least K labels there,
/// which all differ, and at most twice as many.
pub proof fn lemma_labels_count(lines: Seq<Seq<char>>, k: int)
    ensures
        comparisons_before(lines, k) <= labels_before(lines, k) <= 2 * comparisons_before(
            lines,
            k,
        ),
    decreases k,
{
    if k > 0 {
        lemma_labels_count(lines, k - 1);
    }
}

/// An operation takes a label exactly if it is a comparison, and the text of
/// an operation that is none is the same whatever the label count.
pub proof fn lemma_operation_labels(
    op: VmArithmeticCommand,
    namespace: Seq<char>,
    n: nat,
    m: nat,
)
    ensures
        is_comparison(op) <==> labels_used(op) >= 1,
        !is_comparison(op) ==> arithmetic_text(op, namespace, n) == arithmetic_text(
            op,
            namespace,
            m,
        ),
{
}

/// A source that begins with the lines `a` agrees with `a` on those lines:
/// the lines after them change neither their labels nor their texts.
pub proof fn lemma_prefix_of_source(
    a: Seq<Seq<char>>,
    b: Seq<Seq<char>>,
    namespace: Seq<char>,
    n: nat,
    k: int,
)
    requires
        0 <= k <= a.len(),
    ensures
        labels_before(a + b, k) == labels_before(a, k),
        text_before(a + b, namespace, n, k) == text_before(a, namespace, n, k),
    decreases k,
{
    if k > 0 {
        lemma_prefix_of_source(a, b, namespace, n, k - 1);
        assert((a + b)[k - 1] == a[k - 1]);
    }
}

/// In a source made of the lines `a` and then the lines `b`, the lines of `b`
/// take their labels from where `a` has left the count, and their texts
/// follow those of `a`.
pub proof fn lemma_suffix_of_source(
    a: Seq<Seq<char>>,
    b: Seq<Seq<char>>,
    namespace: Seq<char>,
    n: nat,
    k: int,
)
    requires
        0 <= k <= b.len(),
    ensures
        labels_before(a + b, a.len() + k) == labels_before(a, a.len() as int) + labels_before(
            b,
            k,
        ),
        text_before(a + b, namespace, n, a.len() + k) == text_before(
            a,
            namespace,
            n,
            a.len() as int,
        ) + text_before(b, namespace, n + labels_before(a, a.len() as int), k),
    decreases k,
{
    if k == 0 {
        lemma_prefix_of_source(a, b, namespace, n, a.len() as int);
        assert(text_before(a + b, namespace, n, a.len() + k) =~= text_before(
            a,
            namespace,
            n,
            a.len() as int,
        ) + text_before(b, namespace, n + labels_before(a, a.len() as int), k));
    } else {
        lemma_suffix_of_source(a, b, namespace, n, k - 1);
        assert((a + b)[a.len() + k - 1] == b[k - 1]);
        assert(text_before(a + b, namespace, n, a.len() + k) =~= text_before(
            a,
            namespace,
            n,
            a.len() as int,
        ) + text_before(b, namespace, n + labels_before(a, a.len() as int), k));
    }
}

/// The first error of the lines `a` and then `b`, looked for from a line of
/// `b` on, is the first error of `b` from that line on.
proof fn lemma_first_fault_in_suffix(a: Seq<Seq<char>>, b: Seq<Seq<char>>, from: int)
    requires
        0 <= from <= b.len(),
    ensures
        first_fault(a + b, a.len() + from) == a.len() + first_fault(b, from),
    decreases b.len() - from,
{
    if from < b.len() {
        assert((a + b)[a.len() + from] == b[from]);
        lemma_first_fault_in_suffix(a, b, from + 1);
    }
}

/// The first error of the lines `a` and then `b` is that of `a` where `a` has
/// one, and that of `b` else.
proof fn lemma_first_fault_in_prefix(a: Seq<Seq<char>>, b: Seq<Seq<char>>, from: int)
    requires
        0 <= from <= a.len(),
    ensures
        first_fault(a + b, from) == if first_fault(a, from) < a.len() {
            first_fault(a, from)
        } else {
            a.len() + first_fault(b, 0)
        },
    decreases a.len() - from,
{
    lemma_first_fault(a, from);
    if from < a.len() {
        assert((a + b)[from] == a[from]);
        lemma_first_fault_in_prefix(a, b, from + 1);
    } else {
        lemma_first_fault_in_suffix(a, b, 0);
    }
}

/// To translate the lines `a` and then the lines `b` as one source is to
/// translate `a`, and then, if `a` has no error, `b` with the label count
/// that `a` has left: the texts stand in the order of the lines, and the
/// count is never set back.
pub proof fn lemma_sources_in_sequence(
    a: Seq<Seq<char>>,
    b: Seq<Seq<char>>,
    namespace: Seq<char>,
    n: nat,
)
    ensures
        source_fault(a + b) == if source_fault(a) is Some {
            source_fault(a)
        } else {
            source_fault(b)
        },
        source_text(a + b, namespace, n) == if source_fault(a) is Some {
            source_text(a, namespace, n)
        } else {
            source_text(a, namespace, n) + source_text(b, namespace, n + source_labels(a))
        },
        source_labels(a + b) == if source_fault(a) is Some {
            source_labels(a)
        } else {
            source_labels(a) + source_labels(b)
        },
{
    lemma_first_fault(a, 0);
    lemma_first_fault(b, 0);
    lemma_first_fault_in_prefix(a, b, 0);
    let stop = first_fault(a, 0);
    if stop < a.len() {
        lemma_prefix_of_source(a, b, namespace, n, stop);
        assert((a + b)[stop] == a[stop]);
    } else {
        let rest = first_fault(b, 0);
        lemma_suffix_of_source(a, b, namespace, n, rest);
        if rest < b.len() {
            assert((a + b)[a.len() + rest] == b[rest]);
        }
    }
}

/// A blank line or a comment line adds nothing to the output, wherever it
/// stands in a source: with the line and without it, the source has the same
/// text, takes the same labels and has the same error or none.
pub proof fn lemma_blank_lines_add_nothing(
    before: Seq<Seq<char>>,
    line: Seq<char>,
    after: Seq<Seq<char>>,
    namespace: Seq<char>,
    n: nat,
)
    requires
        is_blank(line) || (tokens(line).len() > 0 && tokens(line)[0] == "//"@),
    ensures
        source_text(before + seq![line] + after, namespace, n) == source_text(
            before + after,
            namespace,
            n,
        ),
        source_labels(before + seq![line] + after) == source_labels(before + after),
        source_fault(before + seq![line] + after) == source_fault(before + after),
{
    let single = seq![line];
    let m = n + source_labels(before);
    lemma_blank_and_comment_lines(line, namespace, m);
    assert(first_fault(single, 1) == 1);
    assert(first_fault(single, 0) == 1);
    assert(labels_before(single, 0) == 0);
    assert(labels_before(single, 1) == 0);
    assert(text_before(single, namespace, m, 0) =~= Seq::<char>::empty());
    assert(text_before(single, namespace, m, 1) =~= Seq::<char>::empty());
    lemma_sources_in_sequence(single, after, namespace, m);
    assert(source_text(single + after, namespace, m) =~= source_text(after, namespace, m));
    lemma_sources_in_sequence(before, single + after, namespace, n);
    lemma_sources_in_sequence(before, after, namespace, n);
    assert(before + single + after =~= before + (single + after));
}

} // verus!
