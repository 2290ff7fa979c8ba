//! The fixed mnemonic tables of the C-instruction: destination, computation
//! and jump names, and their parsers.
use crate::instr::{CDest, Comp, Jump};
use crate::text::{chars_eq_str, chars_of, message_with};
use vstd::prelude::*;
use vstd::string::StringExecFns;

verus! {

/// The destination denoted by `w`, if `w` is a destination mnemonic.
pub open spec fn dest_of(w: Seq<char>) -> Option<CDest> {
    if w == "M"@ {
        Some(CDest::M)
    } else if w == "D"@ {
        Some(CDest::D)
    } else if w == "MD"@ {
        Some(CDest::MD)
    } else if w == "A"@ {
        Some(CDest::A)
    } else if w == "AM"@ {
        Some(CDest::AM)
    } else if w == "AD"@ {
        Some(CDest::AD)
    } else if w == "AMD"@ {
        Some(CDest::AMD)
    } else {
        None
    }
}

/// The computation denoted by `w`, if `w` is a computation mnemonic.
pub open spec fn comp_of(w: Seq<char>) -> Option<Comp> {
    if w == "0"@ {
        Some(Comp::Zero)
    } else if w == "1"@ {
        Some(Comp::One)
    } else if w == "-1"@ {
        Some(Comp::MinusOne)
    } else if w == "D"@ {
        Some(Comp::D)
    } else if w == "A"@ {
        Some(Comp::A)
    } else if w == "!D"@ {
        Some(Comp::NotD)
    } else if w == "!A"@ {
        Some(Comp::NotA)
    } else if w == "-D"@ {
        Some(Comp::MinusD)
    } else if w == "-A"@ {
        Some(Comp::MinusA)
    } else if w == "D+1"@ {
        Some(Comp::DPlusOne)
    } else if w == "A+1"@ {
        Some(Comp::APlusOne)
    } else if w == "D-1"@ {
        Some(Comp::DMinusOne)
    } else if w == "A-1"@ {
        Some(Comp::AMinusOne)
    } else if w == "D+A"@ {
        Some(Comp::DPlusA)
    } else if w == "D-A"@ {
        Some(Comp::DMinusA)
    } else if w == "A-D"@ {
        Some(Comp::AMinusD)
    } else if w == "D&A"@ {
        Some(Comp::DAndA)
    } else if w == "D|A"@ {
        Some(Comp::DOrA)
    } else if w == "M"@ {
        Some(Comp::M)
    } else if w == "!M"@ {
        Some(Comp::NotM)
    } else if w == "-M"@ {
        Some(Comp::MinusM)
    } else if w == "M+1"@ {
        Some(Comp::MPlusOne)
    } else if w == "M-1"@ {
        Some(Comp::MMinusOne)
    } else if w == "D+M"@ {
        Some(Comp::DPlusM)
    } else if w == "D-M"@ {
        Some(Comp::DMinusM)
    } else if w == "M-D"@ {
        Some(Comp::MMinusD)
    } else if w == "D&M"@ {
        Some(Comp::DAndM)
    } else if w == "D|M"@ {
        Some(Comp::DOrM)
    } else {
        None
    }
}

/// The jump denoted by `w`, if `w` is a jump mnemonic.
pub open spec fn jump_of(w: Seq<char>) -> Option<Jump> {
    if w == "JGT"@ {
        Some(Jump::JGT)
    } else if w == "JEQ"@ {
        Some(Jump::JEQ)
    } else if w == "JGE"@ {
        Some(Jump::JGE)
    } else if w == "JLT"@ {
        Some(Jump::JLT)
    } else if w == "JNE"@ {
        Some(Jump::JNE)
    } else if w == "JLE"@ {
        Some(Jump::JLE)
    } else if w == "JMP"@ {
        Some(Jump::JMP)
    } else {
        None
    }
}

/// The message a bad destination part earns.
pub open spec fn dest_err(w: Seq<char>) -> Seq<char> {
    if w.len() == 0 {
        "empty destination before '='"@
    } else {
        "invalid destination: "@ + w
    }
}

/// The message a bad computation part earns.
pub open spec fn comp_err(w: Seq<char>) -> Seq<char> {
    if w.len() == 0 {
        "empty computation"@
    } else {
        "invalid computation: "@ + w
    }
}

/// The message a bad jump part earns.
pub open spec fn jump_err(w: Seq<char>) -> Seq<char> {
    if w.len() == 0 {
        "empty jump after ';'"@
    } else {
        "invalid jump: "@ + w
    }
}

/// Look up the destination mnemonic `w`; empty or unrecognized text is an
/// error.
pub(crate) fn dest_of_chars(w: &Vec<char>) -> (r: Result<CDest, String>)
    ensures
        match r {
            Ok(d) => dest_of(w@) == Some(d),
            Err(e) => dest_of(w@) is None && e@ == dest_err(w@),
        },
{
    if w.len() == 0 {
        proof {
            reveal_strlit("M");
            reveal_strlit("D");
            reveal_strlit("MD");
            reveal_strlit("A");
            reveal_strlit("AM");
            reveal_strlit("AD");
            reveal_strlit("AMD");
        }
        return Err(String::from_str("empty destination before '='"));
    }
    if chars_eq_str(w, "M") {
        Ok(CDest::M)
    } else if chars_eq_str(w, "D") {
        Ok(CDest::D)
    } else if chars_eq_str(w, "MD") {
        Ok(CDest::MD)
    } else if chars_eq_str(w, "A") {
        Ok(CDest::A)
    } else if chars_eq_str(w, "AM") {
        Ok(CDest::AM)
    } else if chars_eq_str(w, "AD") {
        Ok(CDest::AD)
    } else if chars_eq_str(w, "AMD") {
        Ok(CDest::AMD)
    } else {
        Err(message_with("invalid destination: ", w))
    }
}

/// Look up the computation mnemonic `w`; empty or unrecognized text is an
/// error.
pub(crate) fn comp_of_chars(w: &Vec<char>) -> (r: Result<Comp, String>)
    ensures
        match r {
            Ok(c) => comp_of(w@) == Some(c),
            Err(e) => comp_of(w@) is None && e@ == comp_err(w@),
        },
{
    if w.len() == 0 {
        proof {
            reveal_strlit("0");
            reveal_strlit("1");
            reveal_strlit("-1");
            reveal_strlit("D");
            reveal_strlit("A");
            reveal_strlit("!D");
            reveal_strlit("!A");
            reveal_strlit("-D");
            reveal_strlit("-A");
            reveal_strlit("D+1");
            reveal_strlit("A+1");
            reveal_strlit("D-1");
            reveal_strlit("A-1");
            reveal_strlit("D+A");
            reveal_strlit("D-A");
            reveal_strlit("A-D");
            reveal_strlit("D&A");
            reveal_strlit("D|A");
            reveal_strlit("M");
            reveal_strlit("!M");
            reveal_strlit("-M");
            reveal_strlit("M+1");
            reveal_strlit("M-1");
            reveal_strlit("D+M");
            reveal_strlit("D-M");
            reveal_strlit("M-D");
            reveal_strlit("D&M");
            reveal_strlit("D|M");
        }
        return Err(String::from_str("empty computation"));
    }
    if chars_eq_str(w, "0") {
        Ok(Comp::Zero)
    } else if chars_eq_str(w, "1") {
        Ok(Comp::One)
    } else if chars_eq_str(w, "-1") {
        Ok(Comp::MinusOne)
    } else if chars_eq_str(w, "D") {
        Ok(Comp::D)
    } else if chars_eq_str(w, "A") {
        Ok(Comp::A)
    } else if chars_eq_str(w, "!D") {
        Ok(Comp::NotD)
    } else if chars_eq_str(w, "!A") {
        Ok(Comp::NotA)
    } else if chars_eq_str(w, "-D") {
        Ok(Comp::MinusD)
    } else if chars_eq_str(w, "-A") {
        Ok(Comp::MinusA)
    } else if chars_eq_str(w, "D+1") {
        Ok(Comp::DPlusOne)
    } else if chars_eq_str(w, "A+1") {
        Ok(Comp::APlusOne)
    } else if chars_eq_str(w, "D-1") {
        Ok(Comp::DMinusOne)
    } else if chars_eq_str(w, "A-1") {
        Ok(Comp::AMinusOne)
    } else if chars_eq_str(w, "D+A") {
        Ok(Comp::DPlusA)
    } else if chars_eq_str(w, "D-A") {
        Ok(Comp::DMinusA)
    } else if chars_eq_str(w, "A-D") {
        Ok(Comp::AMinusD)
    } else if chars_eq_str(w, "D&A") {
        Ok(Comp::DAndA)
    } else if chars_eq_str(w, "D|A") {
        Ok(Comp::DOrA)
    } else if chars_eq_str(w, "M") {
        Ok(Comp::M)
    } else if chars_eq_str(w, "!M") {
        Ok(Comp::NotM)
    } else if chars_eq_str(w, "-M") {
        Ok(Comp::MinusM)
    } else if chars_eq_str(w, "M+1") {
        Ok(Comp::MPlusOne)
    } else if chars_eq_str(w, "M-1") {
        Ok(Comp::MMinusOne)
    } else if chars_eq_str(w, "D+M") {
        Ok(Comp::DPlusM)
    } else if chars_eq_str(w, "D-M") {
        Ok(Comp::DMinusM)
    } else if chars_eq_str(w, "M-D") {
        Ok(Comp::MMinusD)
    } else if chars_eq_str(w, "D&M") {
        Ok(Comp::DAndM)
    } else if chars_eq_str(w, "D|M") {
        Ok(Comp::DOrM)
    } else {
        Err(message_with("invalid computation: ", w))
    }
}

/// Look up the jump mnemonic `w`; empty or unrecognized text is an error.
pub(crate) fn jump_of_chars(w: &Vec<char>) -> (r: Result<Jump, String>)
    ensures
        match r {
            Ok(j) => jump_of(w@) == Some(j),
            Err(e) => jump_of(w@) is None && e@ == jump_err(w@),
        },
{
    if w.len() == 0 {
        proof {
            reveal_strlit("JGT");
            reveal_strlit("JEQ");
            reveal_strlit("JGE");
            reveal_strlit("JLT");
            reveal_strlit("JNE");
            reveal_strlit("JLE");
            reveal_strlit("JMP");
        }
        return Err(String::from_str("empty jump after ';'"));
    }
    if chars_eq_str(w, "JGT") {
        Ok(Jump::JGT)
    } else if chars_eq_str(w, "JEQ") {
        Ok(Jump::JEQ)
    } else if chars_eq_str(w, "JGE") {
        Ok(Jump::JGE)
    } else if chars_eq_str(w, "JLT") {
        Ok(Jump::JLT)
    } else if chars_eq_str(w, "JNE") {
        Ok(Jump::JNE)
    } else if chars_eq_str(w, "JLE") {
        Ok(Jump::JLE)
    } else if chars_eq_str(w, "JMP") {
        Ok(Jump::JMP)
    } else {
        Err(message_with("invalid jump: ", w))
    }
}

/// Parse the destination part of a C-instruction.
pub fn parse_dest(word: &str) -> (r: Result<CDest, String>)
    ensures
        match r {
            Ok(d) => dest_of(word@) == Some(d),
            Err(e) => dest_of(word@) is None && e@ == dest_err(word@),
        },
{
    let w: Vec<char> = chars_of(word);
    dest_of_chars(&w)
}

/// Parse the computation part of a C-instruction.
pub fn parse_op(word: &str) -> (r: Result<Comp, String>)
    ensures
        match r {
            Ok(c) => comp_of(word@) == Some(c),
            Err(e) => comp_of(word@) is None && e@ == comp_err(word@),
        },
{
    let w: Vec<char> = chars_of(word);
    comp_of_chars(&w)
}

/// Parse the jump part of a C-instruction.
pub fn parse_jump(word: &str) -> (r: Result<Jump, String>)
    ensures
        match r {
            Ok(j) => jump_of(word@) == Some(j),
            Err(e) => jump_of(word@) is None && e@ == jump_err(word@),
        },
{
    let w: Vec<char> = chars_of(word);
    jump_of_chars(&w)
}

} // verus!
