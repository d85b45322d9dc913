//! The translator of one source file: its label namespace, its label counter,
//! and the text that it writes for each command and for a whole file.

use crate::command::{
    line_command, parse_line, result_view, ErrorView, VmArithmeticCommand, VmCommand, VmError,
    VmSegment,
};
use crate::template::{
    append_compare, append_eq, append_label, append_pop_segment, append_pop_static,
    append_push_constant, append_push_segment, append_push_static, arithmetic_text, label_text,
    labels_used, pop_text, push_text, ADD_TEXT, AND_TEXT, GT_JUMP, LT_JUMP, NEG_TEXT, NOT_TEXT,
    OR_TEXT, SUB_TEXT,
};
use vstd::prelude::*;

verus! {

/// The stem of the last component of a path: the file's name without its
/// directories and without its extension; none where the path names no file.
/// It stands for what `std::path::Path::file_stem` gives for the path, which
/// is decided by the path's text alone, under the path syntax of the platform
/// that the library is built for.
pub uninterp spec fn file_stem(path: Seq<char>) -> Option<Seq<char>>;

/// Calls `std::path::Path::file_stem` on `path`. Nothing here is proved: the
/// contract gives the call's result the name `file_stem` and claims no more
/// of it than that. The stem of a path that was given as text is text again,
/// so the conversion back loses nothing.
#[verifier::external_body]
fn path_file_stem(path: &str) -> (stem: Option<String>)
    ensures
        stem is Some <==> file_stem(path@) is Some,
        stem matches Some(s) ==> s@ == file_stem(path@).unwrap(),
{
    match std::path::Path::new(path).file_stem() {
        Some(stem) => Some(stem.to_string_lossy().into_owned()),
        None => None,
    }
}

/// The translator of one source file.
pub struct VM {
    path: String,
    label_base: String,
    label_counter: usize,
}

/// The error for which a command has no text, if there is one: `pop` to the
/// segment `constant`.
pub open spec fn command_fault(command: VmCommand) -> Option<ErrorView> {
    match command {
        VmCommand::Pop(VmSegment::Constant, _) => Some(ErrorView::PopConstant),
        _ => None,
    }
}

/// The text of a command, for a translator with the namespace `namespace`
/// whose next label has the number `n`; empty for a command that has none.
pub open spec fn command_text(command: VmCommand, namespace: Seq<char>, n: nat) -> Seq<char> {
    match command {
        VmCommand::NoOp => Seq::empty(),
        VmCommand::Arithmetic(op) => arithmetic_text(op, namespace, n),
        VmCommand::Push(segment, index) => push_text(segment, index),
        VmCommand::Pop(segment, index) => match pop_text(segment, index) {
            Some(text) => text,
            None => Seq::empty(),
        },
    }
}

/// How many labels the text of a command takes.
pub open spec fn command_labels(command: VmCommand) -> nat {
    match command {
        VmCommand::Arithmetic(op) => labels_used(op),
        _ => 0,
    }
}

/// The error that stops the translation at a line, if the line has one: the
/// error of reading it, or that of the command that it spells.
pub open spec fn line_fault(line: Seq<char>) -> Option<ErrorView> {
    match line_command(line) {
        Ok(command) => command_fault(command),
        Err(e) => Some(e),
    }
}

/// The text of a line; empty for a line with an error.
pub open spec fn line_text(line: Seq<char>, namespace: Seq<char>, n: nat) -> Seq<char> {
    match line_command(line) {
        Ok(command) => command_text(command, namespace, n),
        Err(_) => Seq::empty(),
    }
}

/// How many labels the text of a line takes.
pub open spec fn line_labels(line: Seq<char>) -> nat {
    match line_command(line) {
        Ok(command) => command_labels(command),
        Err(_) => 0,
    }
}

/// The index of the first line with an error at or after `from`; the number
/// of lines where there is none.
pub open spec fn first_fault(lines: Seq<Seq<char>>, from: int) -> int
    decreases lines.len() - from,
{
    if from < 0 || from >= lines.len() {
        lines.len() as int
    } else if line_fault(lines[from]) is Some {
        from
    } else {
        first_fault(lines, from + 1)
    }
}

/// How many labels the texts of the first `k` lines take together.
pub open spec fn labels_before(lines: Seq<Seq<char>>, k: int) -> nat
    decreases k,
{
    if k <= 0 {
        0
    } else {
        labels_before(lines, k - 1) + line_labels(lines[k - 1])
    }
}

/// The texts of the first `k` lines one after the other, in the order of the
/// lines, for a translator with the namespace `namespace` whose next label
/// has the number `n` before the first line: each line takes its labels from
/// where the lines before it have left the count.
pub open spec fn text_before(
    lines: Seq<Seq<char>>,
    namespace: Seq<char>,
    n: nat,
    k: int,
) -> Seq<char>
    decreases k,
{
    if k <= 0 {
        Seq::empty()
    } else {
        text_before(lines, namespace, n, k - 1) + line_text(
            lines[k - 1],
            namespace,
            n + labels_before(lines, k - 1),
        )
    }
}

/// The error that ends the translation of a source: that of its first line
/// with an error; none where every line translates.
pub open spec fn source_fault(lines: Seq<Seq<char>>) -> Option<ErrorView> {
    if first_fault(lines, 0) == lines.len() {
        None
    } else {
        line_fault(lines[first_fault(lines, 0)])
    }
}

/// The text of a source: the texts of its lines up to the first line with an
/// error, or of all of them.
pub open spec fn source_text(lines: Seq<Seq<char>>, namespace: Seq<char>, n: nat) -> Seq<char> {
    text_before(lines, namespace, n, first_fault(lines, 0))
}

/// How many labels the text of a source takes.
pub open spec fn source_labels(lines: Seq<Seq<char>>) -> nat {
    labels_before(lines, first_fault(lines, 0))
}

/// The first line with an error at or after `from` is no line before `from`,
/// no line before it and after `from` has an error, and it has one itself.
pub proof fn lemma_first_fault(lines: Seq<Seq<char>>, from: int)
    requires
        0 <= from <= lines.len(),
    ensures
        from <= first_fault(lines, from) <= lines.len(),
        forall|i: int|
            from <= i < first_fault(lines, from) ==> line_fault(#[trigger] lines[i]) is None,
        first_fault(lines, from) < lines.len() ==> line_fault(
            lines[first_fault(lines, from)],
        ) is Some,
    decreases lines.len() - from,
{
    if from < lines.len() && line_fault(lines[from]) is None {
        lemma_first_fault(lines, from + 1);
    }
}

/// The lines of a source as mathematical values.
pub open spec fn texts(lines: Seq<String>) -> Seq<Seq<char>> {
    Seq::new(lines.len(), |i: int| lines[i]@)
}

impl VM {
    /// The path of the source file.
    pub closed spec fn path_text(&self) -> Seq<char> {
        self.path@
    }

    /// The namespace of the labels.
    pub closed spec fn namespace(&self) -> Seq<char> {
        self.label_base@
    }

    /// The number of the next label.
    pub closed spec fn next_index(&self) -> nat {
        self.label_counter as nat
    }

    /// A translator for the file at `path`, which must name a file. The
    /// labels' namespace is the stem of the file's name, and the first label
    /// has the number 0.
    pub fn new(path: &str) -> (vm: VM)
        requires
            file_stem(path@) is Some,
        ensures
            vm.path_text() == path@,
            vm.namespace() == file_stem(path@).unwrap(),
            vm.next_index() == 0,
    {
        let stem = path_file_stem(path).unwrap();
        VM { path: path.to_owned(), label_base: stem, label_counter: 0 }
    }

    /// A translator for the file at `path`; none where the path names no
    /// file.
    pub fn try_new(path: &str) -> (r: Option<VM>)
        ensures
            r is Some <==> file_stem(path@) is Some,
            r matches Some(vm) ==> {
                &&& vm.path_text() == path@
                &&& vm.namespace() == file_stem(path@).unwrap()
                &&& vm.next_index() == 0
            },
    {
        match path_file_stem(path) {
            Some(_) => Some(VM::new(path)),
            None => None,
        }
    }

    /// A translator for the file at `path` whose labels stand in the
    /// namespace `label_base`.
    pub fn with_label_base(path: &str, label_base: &str) -> (vm: VM)
        ensures
            vm.path_text() == path@,
            vm.namespace() == label_base@,
            vm.next_index() == 0,
    {
        VM { path: path.to_owned(), label_base: label_base.to_owned(), label_counter: 0 }
    }

    /// The path of the source file.
    pub fn path(&self) -> (p: &str)
        ensures
            p@ == self.path_text(),
    {
        self.path.as_str()
    }

    /// The namespace of the labels.
    pub fn label_base(&self) -> (b: &str)
        ensures
            b@ == self.namespace(),
    {
        self.label_base.as_str()
    }

    /// The number of the next label, which is the number of labels handed
    /// out so far.
    pub fn label_counter(&self) -> (n: usize)
        ensures
            n == self.next_index(),
    {
        self.label_counter
    }

    /// Hands out the next label: the namespace, a dot, and the label's
    /// number. The numbers start at 0 and rise by one with each label.
    pub fn get_label(&mut self) -> (label: String)
        requires
            old(self).next_index() < usize::MAX,
        ensures
            label@ == label_text(old(self).namespace(), old(self).next_index()),
            final(self).next_index() == old(self).next_index() + 1,
            final(self).namespace() == old(self).namespace(),
            final(self).path_text() == old(self).path_text(),
    {
        let mut label = String::new();
        append_label(&mut label, self.label_base.as_str(), self.label_counter);
        self.label_counter = self.label_counter + 1;
        assert(label@ =~= label_text(old(self).namespace(), old(self).next_index()));
        label
    }

    /// Writes the text of an operation, with fresh labels where it has any.
    pub fn emit_arithmetic(&mut self, writer: &mut String, command: VmArithmeticCommand)
        requires
            old(self).next_index() + labels_used(command) <= usize::MAX,
        ensures
            final(writer)@ == old(writer)@ + arithmetic_text(
                command,
                old(self).namespace(),
                old(self).next_index(),
            ),
            final(self).next_index() == old(self).next_index() + labels_used(command),
            final(self).namespace() == old(self).namespace(),
            final(self).path_text() == old(self).path_text(),
    {
        match command {
            VmArithmeticCommand::Add => writer.append(ADD_TEXT),
            VmArithmeticCommand::Sub => writer.append(SUB_TEXT),
            VmArithmeticCommand::Neg => writer.append(NEG_TEXT),
            VmArithmeticCommand::And => writer.append(AND_TEXT),
            VmArithmeticCommand::Or => writer.append(OR_TEXT),
            VmArithmeticCommand::Not => writer.append(NOT_TEXT),
            VmArithmeticCommand::Eq => {
                let label_false = self.get_label();
                append_eq(writer, label_false.as_str());
            },
            VmArithmeticCommand::Gt => {
                let label_true = self.get_label();
                let label_end = self.get_label();
                append_compare(writer, GT_JUMP, label_true.as_str(), label_end.as_str());
            },
            VmArithmeticCommand::Lt => {
                let label_true = self.get_label();
                let label_end = self.get_label();
                append_compare(writer, LT_JUMP, label_true.as_str(), label_end.as_str());
            },
        }
    }

    /// Writes the text of `push segment value`.
    pub fn emit_push(&self, writer: &mut String, segment: VmSegment, value: i32)
        ensures
            final(writer)@ == old(writer)@ + push_text(segment, value),
    {
        match segment {
            VmSegment::Constant => append_push_constant(writer, value as i64),
            VmSegment::Argument => append_push_segment(writer, "ARG", value as i64),
            VmSegment::Local => append_push_segment(writer, "LCL", value as i64),
            VmSegment::That => append_push_segment(writer, "THAT", value as i64),
            VmSegment::This => append_push_segment(writer, "THIS", value as i64),
            VmSegment::Pointer => append_push_static(writer, 3 + value as i64),
            VmSegment::Temp => append_push_static(writer, 5 + value as i64),
            VmSegment::Static => append_push_static(writer, 16 + value as i64),
        }
    }

    /// Writes the text of `pop segment value`. To pop to the segment
    /// `constant` is an error, and nothing is written.
    pub fn emit_pop(
        &self,
        writer: &mut String,
        segment: VmSegment,
        value: i32,
    ) -> (r: Result<(), VmError>)
        ensures
            result_view(r) == match pop_text(segment, value) {
                Some(_) => Ok::<(), ErrorView>(()),
                None => Err(ErrorView::PopConstant),
            },
            final(writer)@ == match pop_text(segment, value) {
                Some(text) => old(writer)@ + text,
                None => old(writer)@,
            },
    {
        match segment {
            VmSegment::Constant => {
                return Err(VmError::PopConstant);
            },
            VmSegment::Argument => append_pop_segment(writer, "ARG", value as i64),
            VmSegment::Local => append_pop_segment(writer, "LCL", value as i64),
            VmSegment::That => append_pop_segment(writer, "THAT", value as i64),
            VmSegment::This => append_pop_segment(writer, "THIS", value as i64),
            VmSegment::Pointer => append_pop_static(writer, 3 + value as i64),
            VmSegment::Temp => append_pop_static(writer, 5 + value as i64),
            VmSegment::Static => append_pop_static(writer, 16 + value as i64),
        }
        Ok(())
    }

    /// Writes the text of a command. A command with an error writes nothing
    /// and takes no label.
    pub fn emit(&mut self, writer: &mut String, command: VmCommand) -> (r: Result<(), VmError>)
        requires
            old(self).next_index() + command_labels(command) <= usize::MAX,
        ensures
            result_view(r) == match command_fault(command) {
                None => Ok::<(), ErrorView>(()),
                Some(e) => Err(e),
            },
            final(writer)@ == old(writer)@ + command_text(
                command,
                old(self).namespace(),
                old(self).next_index(),
            ),
            final(self).next_index() == old(self).next_index() + command_labels(command),
            final(self).namespace() == old(self).namespace(),
            final(self).path_text() == old(self).path_text(),
    {
        match command {
            VmCommand::NoOp => {
                assert(writer@ =~= old(writer)@ + Seq::<char>::empty());
                Ok(())
            },
            VmCommand::Arithmetic(op) => {
                self.emit_arithmetic(writer, op);
                Ok(())
            },
            VmCommand::Push(segment, value) => {
                self.emit_push(writer, segment, value);
                Ok(())
            },
            VmCommand::Pop(segment, value) => {
                let r = self.emit_pop(writer, segment, value);
                assert(writer@ =~= old(writer)@ + command_text(
                    command,
                    old(self).namespace(),
                    old(self).next_index(),
                ));
                r
            },
        }
    }

    /// Translates the lines of the source file in their order and writes the
    /// text of each behind what `writer` holds. The first line with an error
    /// ends the translation with that error: the texts of the lines before it
    /// are written, and nothing of that line or of the lines after it.
    pub fn parse(&mut self, lines: &Vec<String>, writer: &mut String) -> (r: Result<(), VmError>)
        requires
            old(self).next_index() + 2 * lines.len() <= usize::MAX,
        ensures
            result_view(r) == match source_fault(texts(lines@)) {
                None => Ok::<(), ErrorView>(()),
                Some(e) => Err(e),
            },
            final(writer)@ == old(writer)@ + source_text(
                texts(lines@),
                old(self).namespace(),
                old(self).next_index(),
            ),
            final(self).next_index() == old(self).next_index() + source_labels(texts(lines@)),
            final(self).namespace() == old(self).namespace(),
            final(self).path_text() == old(self).path_text(),
    {
        let ghost source = texts(lines@);
        let ghost namespace = self.namespace();
        let ghost start = self.next_index();
        let ghost written = writer@;
        assert(writer@ =~= written + text_before(source, namespace, start, 0));
        let mut i: usize = 0;
        while i < lines.len()
            invariant
                i <= lines.len(),
                source == texts(lines@),
                namespace == old(self).namespace(),
                start == old(self).next_index(),
                written == old(writer)@,
                self.namespace() == namespace,
                self.path_text() == old(self).path_text(),
                first_fault(source, 0) == first_fault(source, i as int),
                writer@ == written + text_before(source, namespace, start, i as int),
                self.next_index() == start + labels_before(source, i as int),
                labels_before(source, i as int) <= 2 * i,
                start + 2 * lines.len() <= usize::MAX,
            decreases lines.len() - i,
        {
            let ghost before = writer@;
            let command = match parse_line(lines[i].as_str()) {
                Ok(command) => command,
                Err(e) => {
                    return Err(e);
                },
            };
            match self.emit(writer, command) {
                Ok(()) => {},
                Err(e) => {
                    assert(writer@ =~= before);
                    return Err(e);
                },
            }
            assert(writer@ =~= written + text_before(source, namespace, start, i + 1));
            i += 1;
        }
        Ok(())
    }
}

} // verus!
