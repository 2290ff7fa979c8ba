//! The tokenizer and parser: strips line comments, splits the source into
//! whitespace-delimited words, and classifies each word into an instruction,
//! collecting every error together with its 1-based line number.
use crate::instr::{CDest, Instr, InstrV, Jump, Load, LoadV};
use crate::mnemonics::{
    comp_err, comp_of, comp_of_chars, dest_err, dest_of, dest_of_chars, jump_err, jump_of,
    jump_of_chars,
};
use crate::text::{
    chars_of, dec_chars, dec_str, message_with, push_chars, push_str_chars, string_from_chars,
    subvec,
};
use vstd::prelude::*;
use vstd::string::StringExecFns;

verus! {

/// The whitespace characters that separate words: the ASCII space, tab,
/// newline, carriage return, vertical tab and form feed.
pub open spec fn is_space(c: char) -> bool {
    c == ' ' || c == '\t' || c == '\n' || c == '\r' || c as u32 == 11 || c as u32 == 12
}

/// Whether position `i` of `s` lies inside a line comment: at or after a
/// `//`, with no newline in between.
pub open spec fn in_comment(s: Seq<char>, i: int) -> bool
    decreases i,
{
    0 <= i < s.len() && s[i] != '\n' && ((i + 1 < s.len() && s[i] == '/' && s[i + 1] == '/') || (i
        > 0 && in_comment(s, i - 1)))
}

/// `s` with every comment character blanked to a space.
pub open spec fn stripped(s: Seq<char>) -> Seq<char> {
    Seq::new(s.len(), |i: int| if in_comment(s, i) { ' ' } else { s[i] })
}

/// Replace every line comment (a `//` up to, but not including, the next
/// newline, or to the end of the input) by spaces of the same length, so
/// that the string's length and all newline positions are preserved.
pub fn remove_comments(source: &str) -> (r: String)
    ensures
        r@ == stripped(source@),
        r@.len() == source@.len(),
        forall|i: int| 0 <= i < source@.len() ==> ((r@[i] == '\n') <==> (source@[i] == '\n')),
{
    let v: Vec<char> = chars_of(source);
    let n: usize = v.len();
    let mut out: Vec<char> = Vec::new();
    let mut inside: bool = false;
    let mut i: usize = 0;
    while i < n
        invariant
            v@ == source@,
            n == v@.len(),
            i <= n,
            out@.len() == i,
            forall|k: int|
                0 <= k < i ==> out@[k] == (if in_comment(v@, k) {
                    ' '
                } else {
                    v@[k]
                }),
            inside == (i > 0 && in_comment(v@, i - 1)),
        decreases n - i,
    {
        let c: char = v[i];
        if inside {
            if c == '\n' {
                out.push('\n');
                inside = false;
            } else {
                out.push(' ');
            }
        } else {
            if c == '/' && i + 1 < n && v[i + 1] == '/' {
                out.push(' ');
                inside = true;
            } else {
                out.push(c);
            }
        }
        i += 1;
    }
    proof {
        assert(out@ =~= stripped(source@));
    }
    string_from_chars(&out)
}

/// Whether `c` may open an identifier: an ASCII letter, `_`, `.`, `$` or `:`.
pub open spec fn ident_start(c: char) -> bool {
    (65 <= c as u32 && c as u32 <= 90) || (97 <= c as u32 && c as u32 <= 122) || c == '_' || c
        == '.' || c == '$' || c == ':'
}

/// Whether `c` may continue an identifier: an opening character or an ASCII
/// digit.
pub open spec fn ident_char(c: char) -> bool {
    ident_start(c) || is_digit(c)
}

/// Whether `c` is an ASCII decimal digit.
pub open spec fn is_digit(c: char) -> bool {
    48 <= c as u32 && c as u32 <= 57
}

/// Whether `w` satisfies the identifier grammar: a non-empty word opening
/// with a letter, `_`, `.`, `$` or `:`, every later character one of those or
/// a digit.
pub open spec fn is_ident(w: Seq<char>) -> bool {
    w.len() > 0 && ident_start(w[0]) && (forall|k: int|
        1 <= k < w.len() ==> #[trigger] ident_char(w[k]))
}

/// Whether `w` is a non-empty run of decimal digits.
pub open spec fn is_digits(w: Seq<char>) -> bool {
    w.len() > 0 && (forall|k: int| 0 <= k < w.len() ==> #[trigger] is_digit(w[k]))
}

/// The value of the decimal numeral `w`.
pub open spec fn dec_val(w: Seq<char>) -> int
    decreases w.len(),
{
    if w.len() == 0 {
        0
    } else {
        10 * dec_val(w.drop_last()) + (w.last() as u32 - 48)
    }
}

/// Whether `c` may open an identifier.
pub fn is_ident_start(c: char) -> (b: bool)
    ensures
        b == ident_start(c),
{
    let u: u32 = c as u32;
    (65 <= u && u <= 90) || (97 <= u && u <= 122) || c == '_' || c == '.' || c == '$' || c == ':'
}

/// Whether `c` may continue an identifier.
pub fn is_ident_char(c: char) -> (b: bool)
    ensures
        b == ident_char(c),
{
    let u: u32 = c as u32;
    is_ident_start(c) || (48 <= u && u <= 57)
}

/// Whether the whole of `word` satisfies the identifier grammar.
pub fn check_ident(word: &str) -> (b: bool)
    ensures
        b == is_ident(word@),
{
    let v: Vec<char> = chars_of(word);
    ident_ok(&v)
}

/// Whether a value fits the 15 bits of an A-instruction operand.
pub fn check_15bit(num: u32) -> (b: bool)
    ensures
        b == (num < 32768),
{
    num < 32768
}

fn ident_ok(v: &Vec<char>) -> (b: bool)
    ensures
        b == is_ident(v@),
{
    if v.len() == 0 {
        return false;
    }
    if !is_ident_start(v[0]) {
        return false;
    }
    let mut k: usize = 1;
    while k < v.len()
        invariant
            1 <= k <= v@.len(),
            ident_start(v@[0]),
            forall|j: int| 1 <= j < k ==> #[trigger] ident_char(v@[j]),
        decreases v@.len() - k,
    {
        if !is_ident_char(v[k]) {
            return false;
        }
        k += 1;
    }
    true
}

fn all_digits(v: &Vec<char>) -> (b: bool)
    ensures
        b == is_digits(v@),
{
    if v.len() == 0 {
        return false;
    }
    let mut k: usize = 0;
    while k < v.len()
        invariant
            k <= v@.len(),
            forall|j: int| 0 <= j < k ==> #[trigger] is_digit(v@[j]),
        decreases v@.len() - k,
    {
        let u: u32 = v[k] as u32;
        if !(48 <= u && u <= 57) {
            proof {
                assert(!is_digit(v@[k as int]));
            }
            return false;
        }
        k += 1;
    }
    true
}

/// The value of the digit word `v`, clamped at 32768 so that an operand too
/// wide for 15 bits is recognized without overflow.
fn clamped_dec(v: &Vec<char>) -> (r: u32)
    requires
        is_digits(v@),
    ensures
        r == if dec_val(v@) < 32768 {
            dec_val(v@)
        } else {
            32768int
        },
{
    let mut acc: u32 = 0;
    let mut i: usize = 0;
    while i < v.len()
        invariant
            is_digits(v@),
            i <= v@.len(),
            acc == if dec_val(v@.take(i as int)) < 32768 {
                dec_val(v@.take(i as int))
            } else {
                32768int
            },
        decreases v@.len() - i,
    {
        proof {
            assert(is_digit(v@[i as int]));
        }
        let d: u32 = (v[i] as u32) - 48;
        let next: u32 = acc * 10 + d;
        proof {
            assert(v@.take(i + 1).drop_last() =~= v@.take(i as int));
            assert(v@.take(i + 1).last() == v@[i as int]);
            lemma_dec_val_nonneg(v@.take(i as int));
        }
        if next > 32768 {
            acc = 32768;
        } else {
            acc = next;
        }
        i += 1;
    }
    proof {
        assert(v@.take(v@.len() as int) =~= v@);
    }
    acc
}

proof fn lemma_dec_val_nonneg(w: Seq<char>)
    requires
        forall|k: int| 0 <= k < w.len() ==> #[trigger] is_digit(w[k]),
    ensures
        dec_val(w) >= 0,
    decreases w.len(),
{
    if w.len() > 0 {
        assert(is_digit(w[w.len() - 1]));
        assert(forall|k: int|
            0 <= k < w.drop_last().len() ==> #[trigger] is_digit(w.drop_last()[k]));
        lemma_dec_val_nonneg(w.drop_last());
    }
}

/// What parsing the load word `w` (its leading `@` included) yields: the
/// instruction, or the error message.
pub open spec fn load_result(w: Seq<char>) -> Result<InstrV, Seq<char>> {
    let operand = w.drop_first();
    if operand.len() == 0 {
        Err("load instruction missing operand"@)
    } else if is_digits(operand) {
        if dec_val(operand) < 32768 {
            Ok(InstrV::A(LoadV::Value(dec_val(operand) as u16)))
        } else {
            Err("load operand bigger than 15 bits: "@ + operand)
        }
    } else if is_ident(operand) {
        Ok(InstrV::A(LoadV::Symbol(operand)))
    } else {
        Err("invalid load operand identifier: "@ + operand)
    }
}

/// What parsing the label word `w` (its parentheses included) yields.
pub open spec fn label_result(w: Seq<char>) -> Result<InstrV, Seq<char>> {
    if w.len() < 2 || w.last() != ')' {
        Err("unclosed label"@)
    } else {
        let symbol = w.subrange(1, w.len() - 1);
        if symbol.len() == 0 {
            Err("empty label"@)
        } else if !is_ident(symbol) {
            Err("invalid label identifier: "@ + symbol)
        } else {
            Ok(InstrV::Label(symbol))
        }
    }
}

/// The first position at or after `i` where `c` occurs in `w`, or `w.len()`.
pub open spec fn find_from(w: Seq<char>, c: char, i: int) -> int
    decreases w.len() - i,
{
    if !(0 <= i < w.len()) {
        w.len() as int
    } else if w[i] == c {
        i
    } else {
        find_from(w, c, i + 1)
    }
}

/// What parsing the compute word `w` yields: destination before the first
/// `=` (none if `=` is absent), computation next, jump after the first `;`
/// (none if `;` is absent).
pub open spec fn comp_result(w: Seq<char>) -> Result<InstrV, Seq<char>> {
    let e = find_from(w, '=', 0);
    let dest = if e < w.len() {
        dest_of(w.take(e))
    } else {
        Some(CDest::NoDest)
    };
    let rest = if e < w.len() {
        w.skip(e + 1)
    } else {
        w
    };
    if dest is None {
        Err(dest_err(w.take(e)))
    } else {
        let s = find_from(rest, ';', 0);
        let comp_txt = if s < rest.len() {
            rest.take(s)
        } else {
            rest
        };
        if comp_of(comp_txt) is None {
            Err(comp_err(comp_txt))
        } else if s < rest.len() {
            let jump_txt = rest.skip(s + 1);
            if jump_of(jump_txt) is None {
                Err(jump_err(jump_txt))
            } else {
                Ok(
                    InstrV::C {
                        dest: dest->0,
                        comp: comp_of(comp_txt)->0,
                        jump: jump_of(jump_txt)->0,
                    },
                )
            }
        } else {
            Ok(InstrV::C { dest: dest->0, comp: comp_of(comp_txt)->0, jump: Jump::NoJump })
        }
    }
}

/// What parsing any word yields, dispatched on its leading character.
pub open spec fn word_result(w: Seq<char>) -> Result<InstrV, Seq<char>> {
    if w.len() > 0 && w[0] == '@' {
        load_result(w)
    } else if w.len() > 0 && w[0] == '(' {
        label_result(w)
    } else {
        comp_result(w)
    }
}

/// Find the first occurrence of `c` in `v` at or after `from`.
fn find_char(v: &Vec<char>, c: char, from: usize) -> (r: usize)
    requires
        from <= v@.len(),
    ensures
        r == find_from(v@, c, from as int),
        from <= r <= v@.len(),
        r < v@.len() ==> v@[r as int] == c,
{
    let mut i: usize = from;
    while i < v.len()
        invariant
            from <= i <= v@.len(),
            find_from(v@, c, from as int) == find_from(v@, c, i as int),
        decreases v@.len() - i,
    {
        if v[i] == c {
            return i;
        }
        i += 1;
    }
    v.len()
}

/// Parse a load (A-type) instruction: the word after `@` must be a value
/// fitting 15 bits or an identifier.
pub fn parse_load(word: &str) -> (r: Result<Instr, String>)
    requires
        word@.len() > 0,
        word@[0] == '@',
    ensures
        match r {
            Ok(ins) => load_result(word@) == Ok::<InstrV, Seq<char>>(ins@),
            Err(e) => load_result(word@) == Err::<InstrV, Seq<char>>(e@),
        },
{
    let v: Vec<char> = chars_of(word);
    parse_load_chars(&v)
}

pub(crate) fn parse_load_chars(v: &Vec<char>) -> (r: Result<Instr, String>)
    requires
        v@.len() > 0,
        v@[0] == '@',
    ensures
        match r {
            Ok(ins) => load_result(v@) == Ok::<InstrV, Seq<char>>(ins@),
            Err(e) => load_result(v@) == Err::<InstrV, Seq<char>>(e@),
        },
{
    let operand: Vec<char> = subvec(v, 1, v.len());
    proof {
        assert(operand@ =~= v@.drop_first());
    }
    if operand.len() == 0 {
        return Err(String::from_str("load instruction missing operand"));
    }
    if all_digits(&operand) {
        let val: u32 = clamped_dec(&operand);
        if val < 32768 {
            Ok(Instr::A(Load::Value(val as u16)))
        } else {
            Err(message_with("load operand bigger than 15 bits: ", &operand))
        }
    } else if ident_ok(&operand) {
        Ok(Instr::A(Load::Symbol(string_from_chars(&operand))))
    } else {
        Err(message_with("invalid load operand identifier: ", &operand))
    }
}

/// Parse a label declaration: `(name)` with `name` an identifier.
pub fn parse_label(word: &str) -> (r: Result<Instr, String>)
    requires
        word@.len() > 0,
        word@[0] == '(',
    ensures
        match r {
            Ok(ins) => label_result(word@) == Ok::<InstrV, Seq<char>>(ins@),
            Err(e) => label_result(word@) == Err::<InstrV, Seq<char>>(e@),
        },
{
    let v: Vec<char> = chars_of(word);
    parse_label_chars(&v)
}

pub(crate) fn parse_label_chars(v: &Vec<char>) -> (r: Result<Instr, String>)
    requires
        v@.len() > 0,
        v@[0] == '(',
    ensures
        match r {
            Ok(ins) => label_result(v@) == Ok::<InstrV, Seq<char>>(ins@),
            Err(e) => label_result(v@) == Err::<InstrV, Seq<char>>(e@),
        },
{
    if v[v.len() - 1] != ')' {
        return Err(String::from_str("unclosed label"));
    }
    let symbol: Vec<char> = subvec(v, 1, v.len() - 1);
    if symbol.len() == 0 {
        return Err(String::from_str("empty label"));
    }
    if !ident_ok(&symbol) {
        return Err(message_with("invalid label identifier: ", &symbol));
    }
    Ok(Instr::Label(string_from_chars(&symbol)))
}

/// Parse a compute (C-type) instruction of the shape
/// `dest=comp;jump`, with the `dest=` and `;jump` parts optional.
pub fn parse_comp(word: &str) -> (r: Result<Instr, String>)
    ensures
        match r {
            Ok(ins) => comp_result(word@) == Ok::<InstrV, Seq<char>>(ins@),
            Err(e) => comp_result(word@) == Err::<InstrV, Seq<char>>(e@),
        },
{
    let v: Vec<char> = chars_of(word);
    parse_comp_chars(&v)
}

pub(crate) fn parse_comp_chars(v: &Vec<char>) -> (r: Result<Instr, String>)
    ensures
        match r {
            Ok(ins) => comp_result(v@) == Ok::<InstrV, Seq<char>>(ins@),
            Err(e) => comp_result(v@) == Err::<InstrV, Seq<char>>(e@),
        },
{
    let e: usize = find_char(v, '=', 0);
    let dest: CDest;
    let rest: Vec<char>;
    if e < v.len() {
        let dtxt: Vec<char> = subvec(v, 0, e);
        match dest_of_chars(&dtxt) {
            Ok(d) => {
                dest = d;
            },
            Err(m) => {
                return Err(m);
            },
        }
        rest = subvec(v, e + 1, v.len());
    } else {
        dest = CDest::NoDest;
        rest = subvec(v, 0, v.len());
        proof {
            assert(rest@ =~= v@);
        }
    }
    let s: usize = find_char(&rest, ';', 0);
    if s < rest.len() {
        let ctxt: Vec<char> = subvec(&rest, 0, s);
        let comp = match comp_of_chars(&ctxt) {
            Ok(c) => c,
            Err(m) => {
                return Err(m);
            },
        };
        let jtxt: Vec<char> = subvec(&rest, s + 1, rest.len());
        let jump = match jump_of_chars(&jtxt) {
            Ok(j) => j,
            Err(m) => {
                return Err(m);
            },
        };
        Ok(Instr::C { dest, comp, jump })
    } else {
        let comp = match comp_of_chars(&rest) {
            Ok(c) => c,
            Err(m) => {
                return Err(m);
            },
        };
        Ok(Instr::C { dest, comp, jump: Jump::NoJump })
    }
}

/// Parse one word, classified by its leading character: `@` opens a load,
/// `(` a label, anything else a compute instruction.
pub fn parse_word(word: &str) -> (r: Result<Instr, String>)
    ensures
        match r {
            Ok(ins) => word_result(word@) == Ok::<InstrV, Seq<char>>(ins@),
            Err(e) => word_result(word@) == Err::<InstrV, Seq<char>>(e@),
        },
{
    let v: Vec<char> = chars_of(word);
    parse_word_chars(&v)
}

pub(crate) fn parse_word_chars(v: &Vec<char>) -> (r: Result<Instr, String>)
    ensures
        match r {
            Ok(ins) => word_result(v@) == Ok::<InstrV, Seq<char>>(ins@),
            Err(e) => word_result(v@) == Err::<InstrV, Seq<char>>(e@),
        },
{
    if v.len() > 0 && v[0] == '@' {
        parse_load_chars(v)
    } else if v.len() > 0 && v[0] == '(' {
        parse_label_chars(v)
    } else {
        parse_comp_chars(v)
    }
}

/// The count of newline characters among the first `i` characters of `s`.
pub open spec fn nl_count(s: Seq<char>, i: int) -> int
    decreases i,
{
    if i <= 0 {
        0
    } else {
        nl_count(s, i - 1) + if s[i - 1] == '\n' {
            1int
        } else {
            0int
        }
    }
}

/// The full text of an error report: `error at line {line}: {msg}`.
pub open spec fn err_text(line: int, msg: Seq<char>) -> Seq<char> {
    "error at line "@ + dec_str(line as nat) + ": "@ + msg
}

/// Render an error with its 1-based line number.
pub fn build_error(line: usize, msg: &str) -> (r: String)
    ensures
        r@ == err_text(line as int, msg@),
{
    let mut v: Vec<char> = Vec::new();
    push_str_chars(&mut v, "error at line ");
    let d: Vec<char> = dec_chars(line);
    push_chars(&mut v, &d);
    push_str_chars(&mut v, ": ");
    push_str_chars(&mut v, msg);
    string_from_chars(&v)
}

/// The end of the word opening at `i`: the first position at or after `i`
/// holding whitespace, or the end of the text.
pub open spec fn word_end(s: Seq<char>, i: int) -> int
    decreases s.len() - i,
{
    if !(0 <= i < s.len()) {
        s.len() as int
    } else if is_space(s[i]) {
        i
    } else {
        word_end(s, i + 1)
    }
}

proof fn lemma_word_end_bounds(s: Seq<char>, i: int)
    requires
        0 <= i <= s.len(),
    ensures
        i <= word_end(s, i) <= s.len(),
    decreases s.len() - i,
{
    if i < s.len() && !is_space(s[i]) {
        lemma_word_end_bounds(s, i + 1);
    }
}

/// The instructions and the rendered errors that scanning `s` from position
/// `i` produces, in source order.
pub open spec fn scan(s: Seq<char>, i: int) -> (Seq<InstrV>, Seq<Seq<char>>)
    decreases s.len() - i,
    when 0 <= i
    via scan_decreases
{
    if !(0 <= i < s.len()) {
        (Seq::<InstrV>::empty(), Seq::<Seq<char>>::empty())
    } else if is_space(s[i]) {
        scan(s, i + 1)
    } else {
        let e = word_end(s, i);
        let rest = scan(s, e);
        match word_result(s.subrange(i, e)) {
            Ok(ins) => (seq![ins] + rest.0, rest.1),
            Err(m) => (rest.0, seq![err_text(nl_count(s, i) + 1, m)] + rest.1),
        }
    }
}

#[via_fn]
proof fn scan_decreases(s: Seq<char>, i: int) {
    if 0 <= i < s.len() && !is_space(s[i]) {
        lemma_word_end_bounds(s, i + 1);
    }
}

/// The instruction sequence of `source`, in source order, comments removed.
pub open spec fn parsed_instrs(source: Seq<char>) -> Seq<InstrV> {
    scan(stripped(source), 0).0
}

/// The rendered parse errors of `source`, in source order, comments removed.
pub open spec fn parse_errors(source: Seq<char>) -> Seq<Seq<char>> {
    scan(stripped(source), 0).1
}

/// Parse a whole source text: every word is classified, and all errors are
/// collected with their line numbers. If any word is in error the whole list
/// of errors is returned and no instruction sequence.
pub fn parse_asm(source: &str) -> (r: Result<Vec<Instr>, Vec<String>>)
    ensures
        parse_errors(source@).len() == 0 ==> (match r {
            Ok(ins) => ins.deep_view() == parsed_instrs(source@),
            Err(_) => false,
        }),
        parse_errors(source@).len() != 0 ==> (match r {
            Ok(_) => false,
            Err(es) => es.deep_view() == parse_errors(source@),
        }),
{
    let cleaned: String = remove_comments(source);
    let v: Vec<char> = chars_of(cleaned.as_str());
    let ghost s = stripped(source@);
    let n: usize = v.len();
    let mut instrs: Vec<Instr> = Vec::new();
    let mut errors: Vec<String> = Vec::new();
    let mut nl: usize = 0;
    let mut i: usize = 0;
    while i < n
        invariant
            v@ == s,
            s == stripped(source@),
            n == s.len(),
            i <= n,
            nl <= i,
            nl == nl_count(s, i as int),
            instrs.deep_view() + scan(s, i as int).0 == scan(s, 0).0,
            errors.deep_view() + scan(s, i as int).1 == scan(s, 0).1,
        decreases n - i,
    {
        let c: char = v[i];
        if c == ' ' || c == '\t' || c == '\n' || c == '\r' || c as u32 == 11 || c as u32 == 12 {
            if c == '\n' {
                nl += 1;
            }
            i += 1;
        } else {
            let mut j: usize = i;
            while j < n && !(v[j] == ' ' || v[j] == '\t' || v[j] == '\n' || v[j] == '\r' || v[j]
                as u32 == 11 || v[j] as u32 == 12)
                invariant
                    v@ == s,
                    n == s.len(),
                    i <= j <= n,
                    word_end(s, i as int) == word_end(s, j as int),
                    nl_count(s, j as int) == nl_count(s, i as int),
                decreases n - j,
            {
                j += 1;
            }
            proof {
                assert(word_end(s, i as int) == j);
            }
            let w: Vec<char> = subvec(&v, i, j);
            let ghost before_i = instrs.deep_view();
            let ghost before_e = errors.deep_view();
            match parse_word_chars(&w) {
                Ok(ins) => {
                    instrs.push(ins);
                    proof {
                        assert(instrs.deep_view() =~= before_i.push(ins@));
                        assert(before_i.push(ins@) + scan(s, j as int).0 =~= before_i + (seq![ins@]
                            + scan(s, j as int).0));
                    }
                },
                Err(m) => {
                    let msg: String = build_error(nl + 1, m.as_str());
                    errors.push(msg);
                    proof {
                        assert(errors.deep_view() =~= before_e.push(msg@));
                        assert(before_e.push(msg@) + scan(s, j as int).1 =~= before_e + (seq![msg@]
                            + scan(s, j as int).1));
                    }
                },
            }
            i = j;
        }
    }
    proof {
        assert(instrs.deep_view() + scan(s, n as int).0 =~= instrs.deep_view());
        assert(errors.deep_view() + scan(s, n as int).1 =~= errors.deep_view());
    }
    if errors.len() == 0 {
        proof {
            assert(errors.deep_view() =~= Seq::<Seq<char>>::empty());
        }
        Ok(instrs)
    } else {
        proof {
            assert(errors.deep_view().len() == errors@.len());
        }
        Err(errors)
    }
}

} // verus!
