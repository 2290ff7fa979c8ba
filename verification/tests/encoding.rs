//! Tests of the symbol table, the opcode packing and the whole pipeline.
use hackasm::assemble;
use hackasm::codegen::{c_to_code, codegen_instructions, load_to_code, opcodes_to_string, Opcode};
use hackasm::instr::{CDest, Comp, Instr, Jump, Load};
use hackasm::symbols::SymbolTable;

fn assert_load(load: Load, st: &mut SymbolTable, expected: Opcode) {
    assert_eq!(load_to_code(&load, st), expected);
}

fn assert_load_symbol(name: &str, st: &mut SymbolTable, expected: Opcode) {
    assert_load(Load::Symbol(name.into()), st, expected);
}

fn assert_comp(dest: CDest, comp: Comp, jump: Jump, expected: Opcode) {
    assert_eq!(c_to_code(dest, comp, jump), expected);
}

#[test]
fn load_codegen() {
    let mut st = SymbolTable::new();
    let st = &mut st;
    st.add("addr1".into(), 5);
    st.add("addr2".into(), 10);
    st.add("addr3".into(), 500);
    st.add("addr4".into(), 2);
    assert_load(Load::Value(0), st, 0);
    assert_load(Load::Value(1), st, 1);
    assert_load(Load::Value(200), st, 200);

    assert_load_symbol("var1", st, 16);
    assert_load_symbol("var2", st, 17);
    assert_load_symbol("var3", st, 18);
    assert_load_symbol("var4", st, 19);

    assert_load_symbol("addr1", st, 5);
    assert_load_symbol("addr2", st, 10);
    assert_load_symbol("addr3", st, 500);
    assert_load_symbol("addr4", st, 2);

    assert_load_symbol("SP", st, 0);
    assert_load_symbol("LCL", st, 1);
    assert_load_symbol("ARG", st, 2);
    assert_load_symbol("SCREEN", st, 0x4000);
}

#[test]
fn comp_codegen() {
    assert_comp(CDest::NoDest, Comp::Zero, Jump::NoJump, 0b111_0_101010_000_000);
    assert_comp(CDest::A, Comp::One, Jump::JMP, 0b111_0_111111_100_111);
    assert_comp(CDest::AMD, Comp::M, Jump::JGT, 0b111_1_110000_111_001);
}

#[test]
fn comp_variants() {
    assert_eq!(Comp::Zero.code(), 0b0_101010);
    assert_eq!(Comp::One.code(), 0b0_111111);
    assert_eq!(Comp::MinusOne.code(), 0b0_111010);
    assert_eq!(Comp::D.code(), 0b0_001100);
    assert_eq!(Comp::A.code(), 0b0_110000);
    assert_eq!(Comp::NotD.code(), 0b0_001101);
    assert_eq!(Comp::NotA.code(), 0b0_110001);
    assert_eq!(Comp::MinusD.code(), 0b0_001111);
    assert_eq!(Comp::MinusA.code(), 0b0_110011);
    assert_eq!(Comp::DPlusOne.code(), 0b0_011111);
    assert_eq!(Comp::APlusOne.code(), 0b0_110111);
    assert_eq!(Comp::DMinusOne.code(), 0b0_001110);
    assert_eq!(Comp::AMinusOne.code(), 0b0_110010);
    assert_eq!(Comp::DPlusA.code(), 0b0_000010);
    assert_eq!(Comp::DMinusA.code(), 0b0_010011);
    assert_eq!(Comp::AMinusD.code(), 0b0_000111);
    assert_eq!(Comp::DAndA.code(), 0b0_000000);
    assert_eq!(Comp::DOrA.code(), 0b0_010101);
    assert_eq!(Comp::M.code(), 0b1_110000);
    assert_eq!(Comp::NotM.code(), 0b1_110001);
    assert_eq!(Comp::MinusM.code(), 0b1_110011);
    assert_eq!(Comp::MPlusOne.code(), 0b1_110111);
    assert_eq!(Comp::MMinusOne.code(), 0b1_110010);
    assert_eq!(Comp::DPlusM.code(), 0b1_000010);
    assert_eq!(Comp::DMinusM.code(), 0b1_010011);
    assert_eq!(Comp::MMinusD.code(), 0b1_000111);
    assert_eq!(Comp::DAndM.code(), 0b1_000000);
    assert_eq!(Comp::DOrM.code(), 0b1_010101);
}

#[test]
fn dest_and_jump_codes() {
    assert_eq!(CDest::NoDest.code(), 0);
    assert_eq!(CDest::M.code(), 1);
    assert_eq!(CDest::D.code(), 2);
    assert_eq!(CDest::MD.code(), 3);
    assert_eq!(CDest::A.code(), 4);
    assert_eq!(CDest::AM.code(), 5);
    assert_eq!(CDest::AD.code(), 6);
    assert_eq!(CDest::AMD.code(), 7);
    assert_eq!(Jump::NoJump.code(), 0);
    assert_eq!(Jump::JGT.code(), 1);
    assert_eq!(Jump::JEQ.code(), 2);
    assert_eq!(Jump::JGE.code(), 3);
    assert_eq!(Jump::JLT.code(), 4);
    assert_eq!(Jump::JNE.code(), 5);
    assert_eq!(Jump::JLE.code(), 6);
    assert_eq!(Jump::JMP.code(), 7);
}

#[test]
fn seeded_symbol_table() {
    let st = SymbolTable::new();
    assert_eq!(st.addr_of("SP"), Some(0));
    assert_eq!(st.addr_of("LCL"), Some(1));
    assert_eq!(st.addr_of("ARG"), Some(2));
    assert_eq!(st.addr_of("THIS"), Some(3));
    assert_eq!(st.addr_of("THAT"), Some(4));
    assert_eq!(st.addr_of("SCREEN"), Some(0x4000));
    assert_eq!(st.addr_of("KBD"), Some(0x6000));
    for i in 0..16u16 {
        assert_eq!(st.addr_of(&format!("R{i}")), Some(i));
    }
    assert!(st.contains("R15"));
    assert!(!st.contains("R16"));
    assert_eq!(st.addr_of("loop"), None);
}

#[test]
fn symbol_table_last_write_wins() {
    let mut st = SymbolTable::new();
    st.add("x".into(), 100);
    assert_eq!(st.addr_of("x"), Some(100));
    st.add("x".into(), 200);
    assert_eq!(st.addr_of("x"), Some(200));
}

#[test]
fn variables_are_allocated_in_order() {
    let mut st = SymbolTable::new();
    assert_eq!(st.add_variable("a".into()), 16);
    assert_eq!(st.add_variable("b".into()), 17);
    assert_eq!(st.addr_of("a"), Some(16));
    assert_eq!(st.addr_of("b"), Some(17));
    assert_eq!(st.add_variable("c".into()), 18);
}

#[test]
fn opcode_text_is_sixteen_binary_digits_per_line() {
    assert_eq!(opcodes_to_string(&[]), "");
    assert_eq!(
        opcodes_to_string(&[0, 1, 0x8000, 0xFFFF]),
        "0000000000000000\n0000000000000001\n1000000000000000\n1111111111111111\n"
    );
}

#[test]
fn labels_resolve_to_the_next_real_instruction() {
    let source = "(START)\n@0\nD=A\n(LOOP)\n@LOOP\n0;JMP";
    let out = assemble(source).unwrap();
    let lines: Vec<&str> = out.lines().collect();
    assert_eq!(lines.len(), 4);
    // @LOOP resolves to 2: two non-label instructions precede the label.
    assert_eq!(lines[2], "0000000000000010");
    // a jump back to START resolves to 0.
    let out2 = assemble("(START)\n@START\n0;JMP").unwrap();
    assert_eq!(out2.lines().next().unwrap(), "0000000000000000");
}

#[test]
fn variables_get_sixteen_upward_in_first_occurrence_order() {
    let out = assemble("@x\n@y\n@x\n@z").unwrap();
    let lines: Vec<&str> = out.lines().collect();
    assert_eq!(lines[0], "0000000000010000");
    assert_eq!(lines[1], "0000000000010001");
    assert_eq!(lines[2], "0000000000010000");
    assert_eq!(lines[3], "0000000000010010");
    // a predefined name never gets a fresh address
    let out2 = assemble("@v\n@KBD\n@w").unwrap();
    let lines2: Vec<&str> = out2.lines().collect();
    assert_eq!(lines2[0], "0000000000010000");
    assert_eq!(lines2[1], "0110000000000000");
    assert_eq!(lines2[2], "0000000000010001");
}

#[test]
fn literal_loads_encode_to_themselves() {
    let ins = vec![
        Instr::A(Load::Value(0)),
        Instr::A(Load::Value(10)),
        Instr::A(Load::Value(32767)),
    ];
    assert_eq!(codegen_instructions(ins), vec![0, 10, 32767]);
}

#[test]
fn labels_emit_no_opcode() {
    let ins = vec![
        Instr::Label("a".into()),
        Instr::A(Load::Value(7)),
        Instr::Label("b".into()),
    ];
    assert_eq!(codegen_instructions(ins), vec![7]);
}

#[test]
fn two_plus_three_round_trip() {
    let source = "@2\nD=A\n@3\nD=D+A\n@0\nM=D";
    let ins = hackasm::parser::parse_asm(source).unwrap();
    assert_eq!(ins.len(), 6);
    let out = assemble(source).unwrap();
    assert_eq!(
        out,
        "0000000000000010\n1110110000010000\n0000000000000011\n1110000010010000\n0000000000000000\n1110001100001000\n"
    );
    assert_eq!(out.lines().count(), 6);
}

#[test]
fn malformed_inputs_yield_errors_and_no_output() {
    for bad in ["@", "()", "D;", "=0"] {
        let r = assemble(bad);
        match r {
            Ok(_) => panic!("expected an error for {bad:?}"),
            Err(errs) => assert!(!errs.is_empty()),
        }
    }
}

#[test]
fn empty_source_assembles_to_empty_output() {
    assert_eq!(assemble(""), Ok(String::new()));
    assert_eq!(assemble(" \n\t // only a comment\n"), Ok(String::new()));
}

#[test]
fn c_instruction_scenarios() {
    // destination AMD, computation M, jump JGT
    assert_eq!(assemble("AMD=M;JGT").unwrap(), "1111110000111001\n");
    // no destination, computation 0, no jump
    assert_eq!(assemble("0").unwrap(), "1110101010000000\n");
}
