use vmc::command::{VmArithmeticCommand, VmCommand, VmError, VmSegment};
use vmc::decimal::{append_decimal, append_digits};
use vmc::template::append_label;
use vmc::vm::VM;

const PUSH_D: &str = "@SP\nA=M\nM=D\n@SP\nM=M+1\n";

fn lines(source: &str) -> Vec<String> {
    source.split_inclusive('\n').map(String::from).collect()
}

fn translate(name: &str, source: &str) -> (String, Result<(), VmError>, usize) {
    let mut vm = VM::new(name);
    let mut out = String::new();
    let r = vm.parse(&lines(source), &mut out);
    (out, r, vm.label_counter())
}

fn push_constant(value: &str) -> String {
    format!("@{}\nD=A\n{}", value, PUSH_D)
}

fn push_segment(register: &str, index: &str) -> String {
    format!("@{}\nD=A\n@{}\nA=D+M\nD=M\n{}", index, register, PUSH_D)
}

fn push_static(address: &str) -> String {
    format!("@{}\nD=M\n{}", address, PUSH_D)
}

fn pop_segment(register: &str, index: &str) -> String {
    format!(
        "@{}\nD=A\n@{}\nD=D+M\n@R13\nM=D\n@SP\nAM=M-1\nD=M\n@R13\nA=M\nM=D\n",
        index, register
    )
}

fn pop_static(address: &str) -> String {
    format!("@SP\nAM=M-1\nD=M\n@{}\nM=D\n", address)
}

fn eq_text(label: &str) -> String {
    format!(
        "@SP\nAM=M-1\nD=M\nA=A-1\nD=M-D\nM=0\n@{0}\nD;JNE\n@SP\nA=M-1\nM=-1\n({0})\n",
        label
    )
}

fn compare_text(jump: &str, label_true: &str, label_end: &str) -> String {
    format!(
        "@SP\nAM=M-1\nD=M\nA=A-1\nD=M-D\n@{1}\nD;{0}\n@SP\nA=M-1\nM=0\n@{2}\n0;JMP\n({1})\n@SP\nA=M-1\nM=-1\n({2})\n",
        jump, label_true, label_end
    )
}

#[test]
fn new_takes_the_stem_of_the_file_name() {
    let vm = VM::new("some/dir/Foo.vm");
    assert_eq!(vm.path(), "some/dir/Foo.vm");
    assert_eq!(vm.label_base(), "Foo");
    assert_eq!(vm.label_counter(), 0);
    assert_eq!(VM::new("Bar.vm").label_base(), "Bar");
    assert_eq!(VM::new("dir.d/Baz").label_base(), "Baz");
    assert_eq!(VM::new("a/b.tar.gz").label_base(), "b.tar");
    assert_eq!(VM::new(".hidden").label_base(), ".hidden");
}

#[test]
fn try_new_refuses_a_path_without_a_file_name() {
    assert!(VM::try_new("").is_none());
    assert!(VM::try_new("/").is_none());
    assert!(VM::try_new("dir/..").is_none());
    let vm = VM::try_new("dir/Main.vm").unwrap();
    assert_eq!(vm.path(), "dir/Main.vm");
    assert_eq!(vm.label_base(), "Main");
    assert_eq!(vm.label_counter(), 0);
}

#[test]
fn with_label_base_takes_the_namespace_as_given() {
    let vm = VM::with_label_base("some/dir/Foo.vm", "Other");
    assert_eq!(vm.path(), "some/dir/Foo.vm");
    assert_eq!(vm.label_base(), "Other");
    assert_eq!(vm.label_counter(), 0);
}

#[test]
fn labels_count_up_from_zero() {
    let mut vm = VM::new("dir/Foo.vm");
    assert_eq!(vm.get_label(), "Foo.0");
    assert_eq!(vm.get_label(), "Foo.1");
    assert_eq!(vm.get_label(), "Foo.2");
    assert_eq!(vm.label_counter(), 3);
    let mut i = 3;
    while i < 120 {
        assert_eq!(vm.get_label(), format!("Foo.{}", i));
        i += 1;
    }
    assert_eq!(vm.label_counter(), 120);
    assert_eq!(vm.label_base(), "Foo");
}

#[test]
fn labels_of_one_translator_never_repeat() {
    let mut vm = VM::with_label_base("x.vm", "x");
    let mut seen: Vec<String> = Vec::new();
    let mut i = 0;
    while i < 1200 {
        let label = vm.get_label();
        assert!(!seen.contains(&label));
        seen.push(label);
        i += 1;
    }
}

#[test]
fn two_translators_count_apart() {
    let mut a = VM::new("A.vm");
    let mut b = VM::new("B.vm");
    assert_eq!(a.get_label(), "A.0");
    assert_eq!(a.get_label(), "A.1");
    assert_eq!(b.get_label(), "B.0");
    assert_eq!(a.get_label(), "A.2");
}

#[test]
fn decimal_text() {
    let cases: [(i64, &str); 9] = [
        (0, "0"),
        (7, "7"),
        (10, "10"),
        (-1, "-1"),
        (1234567890, "1234567890"),
        (2147483663, "2147483663"),
        (-2147483648, "-2147483648"),
        (i64::MAX, "9223372036854775807"),
        (i64::MIN, "-9223372036854775808"),
    ];
    for (value, text) in cases {
        let mut out = String::from(">");
        append_decimal(&mut out, value);
        assert_eq!(out, format!(">{}", text));
    }
    let mut out = String::new();
    append_digits(&mut out, u64::MAX);
    assert_eq!(out, "18446744073709551615");
    let mut out = String::from("n=");
    append_digits(&mut out, 0);
    assert_eq!(out, "n=0");
}

#[test]
fn label_text_is_namespace_dot_number() {
    let mut out = String::from("@");
    append_label(&mut out, "Main", 42);
    assert_eq!(out, "@Main.42");
}

#[test]
fn each_operation_alone_gives_its_text() {
    let plain = [
        ("add", "@SP\nAM=M-1\nD=M\nA=A-1\nM=D+M\n"),
        ("sub", "@SP\nAM=M-1\nD=M\nA=A-1\nM=M-D\n"),
        ("neg", "@SP\nA=M-1\nM=-M\n"),
        ("and", "@SP\nAM=M-1\nD=M\nA=A-1\nM=D&M\n"),
        ("or", "@SP\nAM=M-1\nD=M\nA=A-1\nM=D|M\n"),
        ("not", "@SP\nA=M-1\nM=!M\n"),
    ];
    for (keyword, text) in plain {
        let (out, r, labels) = translate("dir/Foo.vm", &format!("{}\n", keyword));
        assert_eq!(r, Ok(()));
        assert_eq!(out, text);
        assert_eq!(labels, 0);
    }
    let (out, r, labels) = translate("dir/Foo.vm", "eq\n");
    assert_eq!(r, Ok(()));
    assert_eq!(
        out,
        "@SP\nAM=M-1\nD=M\nA=A-1\nD=M-D\nM=0\n@Foo.0\nD;JNE\n@SP\nA=M-1\nM=-1\n(Foo.0)\n"
    );
    assert_eq!(labels, 1);
    let (out, r, labels) = translate("dir/Foo.vm", "gt\n");
    assert_eq!(r, Ok(()));
    assert_eq!(
        out,
        "@SP\nAM=M-1\nD=M\nA=A-1\nD=M-D\n@Foo.0\nD;JGT\n@SP\nA=M-1\nM=0\n@Foo.1\n0;JMP\n(Foo.0)\n@SP\nA=M-1\nM=-1\n(Foo.1)\n"
    );
    assert_eq!(labels, 2);
    let (out, r, labels) = translate("dir/Foo.vm", "lt");
    assert_eq!(r, Ok(()));
    assert_eq!(
        out,
        "@SP\nAM=M-1\nD=M\nA=A-1\nD=M-D\n@Foo.0\nD;JLT\n@SP\nA=M-1\nM=0\n@Foo.1\n0;JMP\n(Foo.0)\n@SP\nA=M-1\nM=-1\n(Foo.1)\n"
    );
    assert_eq!(labels, 2);
}

#[test]
fn comparisons_take_rising_labels() {
    let (out, r, labels) = translate("Cmp.vm", "eq\ngt\neq\nlt\nadd\ngt\n");
    assert_eq!(r, Ok(()));
    assert_eq!(labels, 8);
    let expected = [
        eq_text("Cmp.0"),
        compare_text("JGT", "Cmp.1", "Cmp.2"),
        eq_text("Cmp.3"),
        compare_text("JLT", "Cmp.4", "Cmp.5"),
        "@SP\nAM=M-1\nD=M\nA=A-1\nM=D+M\n".to_string(),
        compare_text("JGT", "Cmp.6", "Cmp.7"),
    ]
    .concat();
    assert_eq!(out, expected);
}

#[test]
fn every_label_is_declared_once() {
    let mut source = String::new();
    let mut i = 0;
    while i < 40 {
        source.push_str(["eq\n", "gt\n", "lt\n", "add\n"][i % 4]);
        i += 1;
    }
    let (out, r, labels) = translate("Many.vm", &source);
    assert_eq!(r, Ok(()));
    assert_eq!(labels, 50);
    let mut declared: Vec<&str> = out.lines().filter(|l| l.starts_with('(')).collect();
    assert_eq!(declared.len(), 50);
    declared.sort();
    declared.dedup();
    assert_eq!(declared.len(), 50);
    let mut n = 0;
    while n < 50 {
        assert!(declared.contains(&format!("(Many.{})", n).as_str()));
        n += 1;
    }
}

#[test]
fn push_addresses_each_segment() {
    let vm = VM::new("Foo.vm");
    let cases = [
        (VmSegment::Constant, 7, push_constant("7")),
        (VmSegment::Constant, 0, push_constant("0")),
        (VmSegment::Constant, -5, push_constant("-5")),
        (VmSegment::Argument, 1, push_segment("ARG", "1")),
        (VmSegment::Local, 2, push_segment("LCL", "2")),
        (VmSegment::This, 30, push_segment("THIS", "30")),
        (VmSegment::That, 400, push_segment("THAT", "400")),
        (VmSegment::Pointer, 0, push_static("3")),
        (VmSegment::Pointer, 1, push_static("4")),
        (VmSegment::Temp, 2, push_static("7")),
        (VmSegment::Static, 3, push_static("19")),
        (VmSegment::Static, -20, push_static("-4")),
        (VmSegment::Static, i32::MAX, push_static("2147483663")),
        (VmSegment::Temp, i32::MIN, push_static("-2147483643")),
    ];
    for (segment, index, text) in cases {
        let mut out = String::from("// before\n");
        vm.emit_push(&mut out, segment, index);
        assert_eq!(out, format!("// before\n{}", text));
    }
}

#[test]
fn pop_addresses_each_segment() {
    let vm = VM::new("Foo.vm");
    let cases = [
        (VmSegment::Argument, 1, pop_segment("ARG", "1")),
        (VmSegment::Local, 2, pop_segment("LCL", "2")),
        (VmSegment::This, 30, pop_segment("THIS", "30")),
        (VmSegment::That, -1, pop_segment("THAT", "-1")),
        (VmSegment::Pointer, 0, pop_static("3")),
        (VmSegment::Pointer, 1, pop_static("4")),
        (VmSegment::Temp, 2, pop_static("7")),
        (VmSegment::Static, 3, pop_static("19")),
        (VmSegment::Static, i32::MAX, pop_static("2147483663")),
        (VmSegment::Pointer, i32::MIN, pop_static("-2147483645")),
    ];
    for (segment, index, text) in cases {
        let mut out = String::from("// before\n");
        assert_eq!(vm.emit_pop(&mut out, segment, index), Ok(()));
        assert_eq!(out, format!("// before\n{}", text));
    }
}

#[test]
fn push_and_pop_agree_on_fixed_addresses() {
    let vm = VM::new("Foo.vm");
    let segments = [(VmSegment::Pointer, 3i64), (VmSegment::Temp, 5), (VmSegment::Static, 16)];
    let indices = [0, 1, 7, 255, -1, -16, i32::MAX, i32::MIN];
    for (segment, base) in segments {
        for index in indices {
            let address = (base + index as i64).to_string();
            let mut pushed = String::new();
            vm.emit_push(&mut pushed, segment, index);
            assert_eq!(pushed, push_static(&address));
            let mut popped = String::new();
            assert_eq!(vm.emit_pop(&mut popped, segment, index), Ok(()));
            assert_eq!(popped, pop_static(&address));
        }
    }
}

#[test]
fn pop_constant_is_refused_and_writes_nothing() {
    let vm = VM::new("Foo.vm");
    for index in [0, 1, 7, -3, i32::MAX, i32::MIN] {
        let mut out = String::from("kept");
        assert_eq!(vm.emit_pop(&mut out, VmSegment::Constant, index), Err(VmError::PopConstant));
        assert_eq!(out, "kept");
        let (text, r, labels) = translate("Foo.vm", &format!("pop constant {}\n", index));
        assert_eq!(r, Err(VmError::PopConstant));
        assert_eq!(text, "");
        assert_eq!(labels, 0);
    }
    let mut vm = VM::new("Foo.vm");
    let mut out = String::from("kept");
    assert_eq!(
        vm.emit(&mut out, VmCommand::Pop(VmSegment::Constant, 5)),
        Err(VmError::PopConstant)
    );
    assert_eq!(out, "kept");
    assert_eq!(vm.label_counter(), 0);
}

#[test]
fn emit_writes_each_kind_of_command() {
    let mut vm = VM::new("Foo.vm");
    let mut out = String::new();
    assert_eq!(vm.emit(&mut out, VmCommand::NoOp), Ok(()));
    assert_eq!(out, "");
    assert_eq!(vm.emit(&mut out, VmCommand::Push(VmSegment::Constant, 7)), Ok(()));
    assert_eq!(vm.emit(&mut out, VmCommand::Arithmetic(VmArithmeticCommand::Eq)), Ok(()));
    assert_eq!(vm.emit(&mut out, VmCommand::Pop(VmSegment::Temp, 0)), Ok(()));
    assert_eq!(vm.emit(&mut out, VmCommand::Arithmetic(VmArithmeticCommand::Lt)), Ok(()));
    let expected = [
        push_constant("7"),
        eq_text("Foo.0"),
        pop_static("5"),
        compare_text("JLT", "Foo.1", "Foo.2"),
    ]
    .concat();
    assert_eq!(out, expected);
    assert_eq!(vm.label_counter(), 3);
}

#[test]
fn emit_arithmetic_takes_labels_in_order() {
    let mut vm = VM::with_label_base("x", "ns");
    let mut out = String::new();
    vm.emit_arithmetic(&mut out, VmArithmeticCommand::Gt);
    assert_eq!(out, compare_text("JGT", "ns.0", "ns.1"));
    assert_eq!(vm.label_counter(), 2);
    vm.emit_arithmetic(&mut out, VmArithmeticCommand::Neg);
    assert_eq!(vm.label_counter(), 2);
    let mut second = String::new();
    vm.emit_arithmetic(&mut second, VmArithmeticCommand::Eq);
    assert_eq!(second, eq_text("ns.2"));
    assert_eq!(vm.label_counter(), 3);
}

#[test]
fn blank_and_comment_lines_write_nothing() {
    let (out, r, labels) = translate("Foo.vm", "\n   \n// a comment\n\t\r\n//\n");
    assert_eq!(r, Ok(()));
    assert_eq!(out, "");
    assert_eq!(labels, 0);
    let (with, r, _) = translate("Foo.vm", "\n// first\npush constant 1\n\n  // second\nadd\n\n");
    assert_eq!(r, Ok(()));
    let (without, _, _) = translate("Foo.vm", "push constant 1\nadd\n");
    assert_eq!(with, without);
}

#[test]
fn no_lines_write_nothing() {
    let mut vm = VM::new("Foo.vm");
    let mut out = String::from("kept");
    assert_eq!(vm.parse(&Vec::new(), &mut out), Ok(()));
    assert_eq!(out, "kept");
    assert_eq!(vm.label_counter(), 0);
}

#[test]
fn scenario_push_push_add() {
    let (out, r, labels) = translate("Sum.vm", "push constant 7\npush constant 8\nadd\n");
    assert_eq!(r, Ok(()));
    assert_eq!(
        out,
        "@7\nD=A\n@SP\nA=M\nM=D\n@SP\nM=M+1\n@8\nD=A\n@SP\nA=M\nM=D\n@SP\nM=M+1\n@SP\nAM=M-1\nD=M\nA=A-1\nM=D+M\n"
    );
    assert_eq!(labels, 0);
}

#[test]
fn scenario_push_local_pop_argument() {
    let (out, r, labels) = translate("Move.vm", "push local 2\npop argument 1\n");
    assert_eq!(r, Ok(()));
    assert_eq!(
        out,
        "@2\nD=A\n@LCL\nA=D+M\nD=M\n@SP\nA=M\nM=D\n@SP\nM=M+1\n@1\nD=A\n@ARG\nD=D+M\n@R13\nM=D\n@SP\nAM=M-1\nD=M\n@R13\nA=M\nM=D\n"
    );
    assert_eq!(labels, 0);
}

#[test]
fn scenario_unknown_first_token_writes_nothing() {
    let (out, r, labels) = translate("Bad.vm", "frobnicate\npush constant 1\n");
    assert_eq!(r, Err(VmError::UnknownCommand("frobnicate".to_string())));
    assert_eq!(out, "");
    assert_eq!(labels, 0);
}

#[test]
fn an_error_keeps_what_was_written_before_it() {
    let (out, r, labels) = translate("Bad.vm", "push constant 1\neq\npush heap 2\ngt\n");
    assert_eq!(r, Err(VmError::UnknownSegment("heap".to_string())));
    assert_eq!(out, [push_constant("1"), eq_text("Bad.0")].concat());
    assert_eq!(labels, 1);
    let (out, r, _) = translate("Bad.vm", "add\npush local\nadd\n");
    assert_eq!(r, Err(VmError::MissingOperand));
    assert_eq!(out, "@SP\nAM=M-1\nD=M\nA=A-1\nM=D+M\n");
    let (out, r, _) = translate("Bad.vm", "neg\npop temp x1\n");
    assert_eq!(r, Err(VmError::InvalidInteger("x1".to_string())));
    assert_eq!(out, "@SP\nA=M-1\nM=-M\n");
}

#[test]
fn files_share_one_sink_and_count_labels_apart() {
    let mut sink = String::new();
    let mut first = VM::new("dir/First.vm");
    assert_eq!(first.parse(&lines("push constant 1\neq\n"), &mut sink), Ok(()));
    let mut second = VM::new("dir/Second.vm");
    assert_eq!(second.parse(&lines("eq\nlt\n"), &mut sink), Ok(()));
    let expected = [
        push_constant("1"),
        eq_text("First.0"),
        eq_text("Second.0"),
        compare_text("JLT", "Second.1", "Second.2"),
    ]
    .concat();
    assert_eq!(sink, expected);
}

#[test]
fn parse_goes_on_from_the_labels_already_taken() {
    let mut vm = VM::new("Foo.vm");
    let mut out = String::new();
    assert_eq!(vm.parse(&lines("gt\n"), &mut out), Ok(()));
    assert_eq!(vm.parse(&lines("eq\n"), &mut out), Ok(()));
    assert_eq!(out, [compare_text("JGT", "Foo.0", "Foo.1"), eq_text("Foo.2")].concat());
    assert_eq!(vm.label_counter(), 3);
}

#[test]
fn lines_without_a_newline_are_read_too() {
    let source = vec!["push constant 7".to_string(), "  neg  ".to_string()];
    let mut vm = VM::new("Foo.vm");
    let mut out = String::new();
    assert_eq!(vm.parse(&source, &mut out), Ok(()));
    assert_eq!(out, [push_constant("7"), "@SP\nA=M-1\nM=-M\n".to_string()].concat());
}
