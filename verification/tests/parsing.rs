use vmc::command::{
    parse_line, parse_vmarithmetic, parse_vmsegment, ErrorKind, VmArithmeticCommand, VmCommand,
    VmError, VmSegment,
};
use vmc::decimal::parse_i32;
use vmc::token::{chars_of, is_whitespace, next_token, spells};

#[test]
fn blank_lines_are_no_command() {
    assert_eq!(parse_line(""), Ok(VmCommand::NoOp));
    assert_eq!(parse_line("\n"), Ok(VmCommand::NoOp));
    assert_eq!(parse_line("   \t \r\n"), Ok(VmCommand::NoOp));
    assert_eq!(parse_line("\u{3000}\u{a0}"), Ok(VmCommand::NoOp));
}

#[test]
fn comment_lines_are_no_command() {
    assert_eq!(parse_line("// push constant 7\n"), Ok(VmCommand::NoOp));
    assert_eq!(parse_line("   //\n"), Ok(VmCommand::NoOp));
    assert_eq!(parse_line("// frobnicate"), Ok(VmCommand::NoOp));
}

#[test]
fn comment_marker_must_be_a_token_of_its_own() {
    assert_eq!(
        parse_line("//comment\n"),
        Err(VmError::UnknownCommand("//comment".to_string()))
    );
}

#[test]
fn trailing_comment_after_push_is_ignored_as_extra_tokens() {
    assert_eq!(
        parse_line("push constant 7 // seven\n"),
        Ok(VmCommand::Push(VmSegment::Constant, 7))
    );
}

#[test]
fn every_arithmetic_keyword_is_read() {
    let table = [
        ("neg", VmArithmeticCommand::Neg),
        ("add", VmArithmeticCommand::Add),
        ("sub", VmArithmeticCommand::Sub),
        ("eq", VmArithmeticCommand::Eq),
        ("gt", VmArithmeticCommand::Gt),
        ("lt", VmArithmeticCommand::Lt),
        ("not", VmArithmeticCommand::Not),
        ("and", VmArithmeticCommand::And),
        ("or", VmArithmeticCommand::Or),
    ];
    for (keyword, op) in table {
        assert_eq!(parse_vmarithmetic(keyword), Some(op));
        assert_eq!(parse_line(keyword), Ok(VmCommand::Arithmetic(op)));
        let line = format!("  {}\n", keyword);
        assert_eq!(parse_line(&line), Ok(VmCommand::Arithmetic(op)));
    }
}

#[test]
fn tokens_after_an_arithmetic_keyword_are_ignored() {
    assert_eq!(
        parse_line("add 1 2 3\n"),
        Ok(VmCommand::Arithmetic(VmArithmeticCommand::Add))
    );
    assert_eq!(
        parse_line("eq frobnicate"),
        Ok(VmCommand::Arithmetic(VmArithmeticCommand::Eq))
    );
}

#[test]
fn keywords_have_one_spelling() {
    assert_eq!(parse_vmarithmetic("Add"), None);
    assert_eq!(parse_vmarithmetic("ADD"), None);
    assert_eq!(parse_vmarithmetic("ad"), None);
    assert_eq!(parse_vmarithmetic("addd"), None);
    assert_eq!(parse_vmarithmetic(""), None);
    assert_eq!(parse_line("Add"), Err(VmError::UnknownCommand("Add".to_string())));
    assert_eq!(parse_line("PUSH constant 1"), Err(VmError::UnknownCommand("PUSH".to_string())));
    assert_eq!(
        parse_vmsegment("Local"),
        Err(VmError::UnknownSegment("Local".to_string()))
    );
    assert_eq!(parse_vmsegment("loc"), Err(VmError::UnknownSegment("loc".to_string())));
    assert_eq!(parse_vmsegment(""), Err(VmError::UnknownSegment(String::new())));
}

#[test]
fn every_segment_keyword_is_read() {
    let table = [
        ("argument", VmSegment::Argument),
        ("local", VmSegment::Local),
        ("static", VmSegment::Static),
        ("constant", VmSegment::Constant),
        ("this", VmSegment::This),
        ("that", VmSegment::That),
        ("pointer", VmSegment::Pointer),
        ("temp", VmSegment::Temp),
    ];
    for (keyword, segment) in table {
        assert_eq!(parse_vmsegment(keyword), Ok(segment));
        let push = format!("push {} 3\n", keyword);
        assert_eq!(parse_line(&push), Ok(VmCommand::Push(segment, 3)));
        let pop = format!("\tpop   {}\t-4", keyword);
        assert_eq!(parse_line(&pop), Ok(VmCommand::Pop(segment, -4)));
    }
}

#[test]
fn resolving_a_token_twice_gives_the_same_answer() {
    let first = String::from("pointer");
    let second = String::from("pointer");
    assert_eq!(parse_vmsegment(&first), parse_vmsegment(&second));
    assert_eq!(parse_vmsegment(&first), parse_vmsegment(&first));
    assert_eq!(parse_vmsegment("nowhere"), parse_vmsegment("nowhere"));
    assert_eq!(parse_vmarithmetic("lt"), parse_vmarithmetic("lt"));
    assert_eq!(parse_vmarithmetic("nothing"), parse_vmarithmetic("nothing"));
}

#[test]
fn unknown_command_holds_the_first_token() {
    assert_eq!(
        parse_line("frobnicate\n"),
        Err(VmError::UnknownCommand("frobnicate".to_string()))
    );
    assert_eq!(
        parse_line("  label LOOP\n"),
        Err(VmError::UnknownCommand("label".to_string()))
    );
}

#[test]
fn unknown_segment_holds_the_token() {
    assert_eq!(
        parse_line("push heap 3\n"),
        Err(VmError::UnknownSegment("heap".to_string()))
    );
    assert_eq!(
        parse_line("pop 3 local\n"),
        Err(VmError::UnknownSegment("3".to_string()))
    );
}

#[test]
fn unknown_segment_comes_before_missing_index() {
    assert_eq!(parse_line("push heap"), Err(VmError::UnknownSegment("heap".to_string())));
    assert_eq!(
        parse_line("push heap seven"),
        Err(VmError::UnknownSegment("heap".to_string()))
    );
}

#[test]
fn missing_operands_are_an_error() {
    assert_eq!(parse_line("push"), Err(VmError::MissingOperand));
    assert_eq!(parse_line("pop\n"), Err(VmError::MissingOperand));
    assert_eq!(parse_line("push local"), Err(VmError::MissingOperand));
    assert_eq!(parse_line("pop constant  \n"), Err(VmError::MissingOperand));
}

#[test]
fn invalid_integer_holds_the_token() {
    assert_eq!(
        parse_line("push constant seven\n"),
        Err(VmError::InvalidInteger("seven".to_string()))
    );
    assert_eq!(
        parse_line("push constant 7a"),
        Err(VmError::InvalidInteger("7a".to_string()))
    );
    assert_eq!(
        parse_line("push constant 2147483648"),
        Err(VmError::InvalidInteger("2147483648".to_string()))
    );
    assert_eq!(
        parse_line("pop local 1.5"),
        Err(VmError::InvalidInteger("1.5".to_string()))
    );
}

#[test]
fn integers_as_the_standard_library_reads_them() {
    let samples = [
        "0", "7", "-7", "+7", "007", "-0", "+0", "2147483647", "-2147483648", "2147483648",
        "-2147483649", "99999999999999999999999", "-99999999999999999999999", "", "+", "-", "--1",
        "+-1", "-+1", "1-", "1 ", " 1", "0x10", "1_000", "١٢", "12a", "a12", "4294967296",
        "00000000000000000000000000000000017", "-000000000002147483648", "+2147483647",
    ];
    for s in samples {
        assert_eq!(parse_i32(s), s.parse::<i32>().ok(), "for {:?}", s);
    }
}

#[test]
fn integer_bounds() {
    assert_eq!(parse_i32("2147483647"), Some(i32::MAX));
    assert_eq!(parse_i32("-2147483648"), Some(i32::MIN));
    assert_eq!(parse_i32("2147483648"), None);
    assert_eq!(parse_i32("-2147483649"), None);
    assert_eq!(
        parse_line("push constant -2147483648"),
        Ok(VmCommand::Push(VmSegment::Constant, i32::MIN))
    );
}

#[test]
fn whitespace_as_the_standard_library_knows_it() {
    let mut code: u32 = 0;
    while code <= 0x3100 {
        if let Some(c) = char::from_u32(code) {
            assert_eq!(is_whitespace(c), c.is_whitespace(), "for U+{:04X}", code);
        }
        code += 1;
    }
    assert!(!is_whitespace('\u{feff}'));
    assert!(!is_whitespace('\u{200b}'));
    assert!(!is_whitespace('\u{10ffff}'));
}

#[test]
fn tokens_one_after_the_other() {
    let line = chars_of("  push\tlocal  12\n");
    assert_eq!(line.len(), 17);
    assert_eq!(next_token(&line, 0), (2, 6));
    assert_eq!(next_token(&line, 6), (7, 12));
    assert_eq!(next_token(&line, 12), (14, 16));
    assert_eq!(next_token(&line, 16), (17, 17));
    assert_eq!(next_token(&line, 17), (17, 17));
    assert!(spells(&line, 2, 6, "push"));
    assert!(!spells(&line, 2, 6, "pus"));
    assert!(!spells(&line, 2, 6, "pushx"));
    assert!(!spells(&line, 2, 6, "posh"));
    assert!(spells(&line, 3, 3, ""));
}

#[test]
fn tokens_match_split_whitespace() {
    let samples = [
        "", " ", "a", " a", "a ", "push constant 7", "\u{2003}pop\u{3000}temp\u{a0}1\r\n",
        "é ü\tß", "// a comment with many words in it",
    ];
    for s in samples {
        let line = chars_of(s);
        let mut found: Vec<String> = Vec::new();
        let mut from = 0;
        loop {
            let (start, end) = next_token(&line, from);
            if start == end {
                break;
            }
            found.push(line[start..end].iter().collect());
            from = end;
        }
        let expected: Vec<String> = s.split_whitespace().map(String::from).collect();
        assert_eq!(found, expected, "for {:?}", s);
    }
}

#[test]
fn chars_of_keeps_every_character() {
    assert_eq!(chars_of(""), Vec::<char>::new());
    assert_eq!(chars_of("a é\n"), vec!['a', ' ', 'é', '\n']);
}

#[test]
fn error_kinds() {
    assert_eq!(VmError::UnknownCommand("x".to_string()).kind(), ErrorKind::Syntax);
    assert_eq!(VmError::UnknownSegment("x".to_string()).kind(), ErrorKind::Syntax);
    assert_eq!(VmError::InvalidInteger("x".to_string()).kind(), ErrorKind::Syntax);
    assert_eq!(VmError::MissingOperand.kind(), ErrorKind::Syntax);
    assert_eq!(VmError::PopConstant.kind(), ErrorKind::Semantic);
}

#[test]
fn error_messages() {
    assert_eq!(
        VmError::UnknownCommand("frobnicate".to_string()).message(),
        "unknown command: frobnicate"
    );
    assert_eq!(
        VmError::UnknownSegment("heap".to_string()).message(),
        "unknown segment: heap"
    );
    assert_eq!(
        VmError::InvalidInteger("seven".to_string()).message(),
        "invalid integer: seven"
    );
    assert_eq!(VmError::MissingOperand.message(), "missing operand");
    assert_eq!(VmError::PopConstant.message(), "thou shall not use 'pop constant'");
}

#[test]
fn decimal_text_reads_back() {
    for value in [0, 1, -1, 9, 10, 99, 100, -100, 12345, i32::MAX, i32::MIN, i32::MAX - 1] {
        let mut text = String::new();
        vmc::decimal::append_decimal(&mut text, value as i64);
        assert_eq!(text, value.to_string());
        assert_eq!(parse_i32(&text), Some(value));
    }
}

#[test]
fn commands_read_back_from_their_spelling() {
    let segments = [
        ("argument", VmSegment::Argument),
        ("local", VmSegment::Local),
        ("static", VmSegment::Static),
        ("constant", VmSegment::Constant),
        ("this", VmSegment::This),
        ("that", VmSegment::That),
        ("pointer", VmSegment::Pointer),
        ("temp", VmSegment::Temp),
    ];
    for (keyword, segment) in segments {
        for index in [0, 5, -5, i32::MAX, i32::MIN] {
            let mut push = format!("push {} ", keyword);
            vmc::decimal::append_decimal(&mut push, index as i64);
            assert_eq!(parse_line(&push), Ok(VmCommand::Push(segment, index)));
            let mut pop = format!("pop {} ", keyword);
            vmc::decimal::append_decimal(&mut pop, index as i64);
            assert_eq!(parse_line(&pop), Ok(VmCommand::Pop(segment, index)));
        }
    }
    assert_eq!(
        parse_line(" \tpop \u{2003} constant\t+007 \r\n"),
        Ok(VmCommand::Pop(VmSegment::Constant, 7))
    );
}
