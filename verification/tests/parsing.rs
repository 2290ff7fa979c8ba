//! Tests of comment removal, word classification and the parse errors.
use hackasm::instr::{CDest, Comp, Instr, Jump, Load};
use hackasm::parser::{
    build_error, check_15bit, check_ident, is_ident_char, is_ident_start, parse_asm, parse_comp,
    parse_label, parse_load, parse_word, remove_comments,
};

fn assert_error<T>(res: Result<T, String>) {
    assert!(matches!(res, Err(_)));
}

#[test]
fn test_parse_load() {
    assert_eq!(parse_load("@abc"), Ok(Instr::A(Load::Symbol("abc".into()))));
    assert_eq!(parse_load("@123"), Ok(Instr::A(Load::Value(123))));
    assert_error(parse_load("@100000"));
    assert_error(parse_load("@"));
    assert_error(parse_load("@("));
    assert_error(parse_load("@;"));
}

#[test]
fn test_parse_label() {
    assert_eq!(parse_label("(abc)"), Ok(Instr::Label("abc".into())));
    assert_eq!(
        parse_label("(abc:def:)"),
        Ok(Instr::Label("abc:def:".into()))
    );
    assert_error(parse_label("( abc )"));
    assert_error(parse_label("(123)"));
    assert_error(parse_label("(1abc)"));
    assert_error(parse_label("()"));
    assert_error(parse_label("( )"));
    assert_error(parse_label("(;abc)"));
    assert_error(parse_label("(abc"));
    assert_error(parse_label("( abc"));
}

fn assert_comp_ok(source: &str, dest: CDest, comp: Comp, jump: Jump) {
    assert_eq!(parse_comp(source), Ok(Instr::C { dest, comp, jump }));
}

fn assert_comp_err(source: &str) {
    assert!(matches!(parse_comp(source), Err(_)));
}

#[test]
fn test_parse_comp() {
    assert_comp_ok("0", CDest::NoDest, Comp::Zero, Jump::NoJump);
    assert_comp_ok("A=1", CDest::A, Comp::One, Jump::NoJump);
    assert_comp_err("A=");
    assert_comp_err("abc=");
    assert_comp_err("=0");
    assert_comp_err("=");

    assert_comp_ok("D;JMP", CDest::NoDest, Comp::D, Jump::JMP);
    assert_comp_err(";");
    assert_comp_err("D;");
    assert_comp_err(";JMP");
    assert_comp_err(";abc");

    assert_comp_ok("AMD=D|A;JGE", CDest::AMD, Comp::DOrA, Jump::JGE);
}

#[test]
fn test_remove_comments() {
    assert_eq!(
        remove_comments("abc//comment lalala \ndef"),
        "abc                 \ndef"
    );
    assert_eq!(
        remove_comments("abc //comment lalala \ndef"),
        "abc                  \ndef"
    );
    assert_eq!(
        remove_comments("abc//comment lalala \n"),
        "abc                 \n"
    );
    assert_eq!(remove_comments("abc//comment lalala"), "abc                ");
    assert_eq!(
        remove_comments("abc//comment //nested lalala \ndef"),
        "abc                          \ndef"
    );
}

#[test]
fn remove_comments_keeps_length_and_newlines() {
    let src = "abc//x\ndef";
    let out = remove_comments(src);
    assert_eq!(out.len(), src.len());
    assert_eq!(out, "abc   \ndef");
    let src2 = "//a\n//b\n@1";
    let out2 = remove_comments(src2);
    assert_eq!(out2.len(), src2.len());
    let newlines: Vec<usize> = out2
        .char_indices()
        .filter(|(_, c)| *c == '\n')
        .map(|(i, _)| i)
        .collect();
    assert_eq!(newlines, vec![3, 7]);
}

#[test]
fn parse_word_dispatches_on_leading_character() {
    assert_eq!(parse_word("@5"), Ok(Instr::A(Load::Value(5))));
    assert_eq!(parse_word("(a)"), Ok(Instr::Label("a".into())));
    assert_eq!(
        parse_word("0"),
        Ok(Instr::C {
            dest: CDest::NoDest,
            comp: Comp::Zero,
            jump: Jump::NoJump
        })
    );
}

#[test]
fn literal_bounds_are_checked_at_parse_time() {
    assert_eq!(parse_load("@32767"), Ok(Instr::A(Load::Value(32767))));
    assert_error(parse_load("@32768"));
    assert_error(parse_load("@99999999999999999999"));
    assert_eq!(parse_load("@0032767"), Ok(Instr::A(Load::Value(32767))));
    assert!(check_15bit(32767));
    assert!(!check_15bit(32768));
}

#[test]
fn identifier_grammar() {
    assert!(is_ident_start('a'));
    assert!(is_ident_start('Z'));
    assert!(is_ident_start('_'));
    assert!(is_ident_start('.'));
    assert!(is_ident_start('$'));
    assert!(is_ident_start(':'));
    assert!(!is_ident_start('0'));
    assert!(!is_ident_start('-'));
    assert!(is_ident_char('0'));
    assert!(is_ident_char('x'));
    assert!(!is_ident_char(' '));
    assert!(check_ident("loop$2"));
    assert!(check_ident("_a.b:c"));
    assert!(!check_ident("2fast"));
    assert!(!check_ident(""));
    assert!(!check_ident("a b"));
}

#[test]
fn errors_carry_line_numbers() {
    let errs = parse_asm("@\n@\n").unwrap_err();
    assert_eq!(errs.len(), 2);
    assert_eq!(errs[0], "error at line 1: load instruction missing operand");
    assert_eq!(errs[1], "error at line 2: load instruction missing operand");

    let errs2 = parse_asm("@1\n@1 @99999\nbogus").unwrap_err();
    assert_eq!(errs2.len(), 2);
    assert_eq!(errs2[0], "error at line 2: load operand bigger than 15 bits: 99999");
    assert_eq!(errs2[1], "error at line 3: invalid computation: bogus");
}

#[test]
fn comments_do_not_shift_line_numbers() {
    let errs = parse_asm("// header\n@1 // fine\n@ // broken\n").unwrap_err();
    assert_eq!(errs, vec!["error at line 3: load instruction missing operand".to_string()]);
}

#[test]
fn build_error_formats_the_report() {
    assert_eq!(build_error(12, "msg"), "error at line 12: msg");
    assert_eq!(build_error(1, "x"), "error at line 1: x");
}

#[test]
fn parse_asm_collects_all_errors_in_order() {
    let errs = parse_asm("@ (1a) D=;JMP ok=0").unwrap_err();
    assert_eq!(errs.len(), 4);
    assert!(errs[0].contains("missing operand"));
    assert!(errs[1].contains("invalid label identifier"));
    assert!(errs[2].contains("empty computation"));
    assert!(errs[3].contains("invalid destination: ok"));
}

#[test]
fn parse_asm_accepts_a_whole_program() {
    let ins = parse_asm("(START) @2 D=A // add\n@sum M=D;JGT").unwrap();
    assert_eq!(ins.len(), 5);
    assert_eq!(ins[0], Instr::Label("START".into()));
    assert_eq!(ins[1], Instr::A(Load::Value(2)));
    assert_eq!(
        ins[2],
        Instr::C {
            dest: CDest::D,
            comp: Comp::A,
            jump: Jump::NoJump
        }
    );
    assert_eq!(ins[3], Instr::A(Load::Symbol("sum".into())));
    assert_eq!(
        ins[4],
        Instr::C {
            dest: CDest::M,
            comp: Comp::D,
            jump: Jump::JGT
        }
    );
}

#[test]
fn jump_errors() {
    assert_error(parse_comp("0;XYZ"));
    assert_error(parse_comp("D;jmp"));
    let errs = parse_asm("0;XYZ").unwrap_err();
    assert_eq!(errs, vec!["error at line 1: invalid jump: XYZ".to_string()]);
}
