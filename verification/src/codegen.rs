//! The code generator: two passes over the parsed instruction sequence. The
//! first registers every label at the address of the next real instruction;
//! the second packs each non-label instruction into a 16-bit opcode,
//! resolving symbols through the symbol table and allocating fresh variable
//! addresses on first sight.
use crate::instr::{comp_code, dest_code, jump_code, CDest, Comp, Instr, InstrV, Jump, Load, LoadV};
use crate::symbols::{seeded_map, SymbolTable};
use crate::text::{push_chars, string_from_chars};
use vstd::prelude::*;

verus! {

/// The final 16-bit machine word.
pub type Opcode = u16;

/// The opcode of a C-instruction: the fixed prefix `111`, then the
/// computation code in bits 6..=12, the destination code in bits 3..=5 and
/// the jump code in bits 0..=2.
pub open spec fn c_opcode(dest: CDest, comp: Comp, jump: Jump) -> u16 {
    (0b1110_0000_0000_0000 + 64 * (comp_code(comp) as int) + 8 * (dest_code(dest) as int) + (
    jump_code(jump) as int)) as u16
}

/// Pass 1 as a function: the bindings after registering every label of
/// `ins` onto `m`, where `ctr` non-label instructions have already been
/// seen. A label is bound to the count of non-label instructions before it;
/// a repeated label name keeps the last binding.
pub open spec fn reg_labels(ins: Seq<InstrV>, m: Map<Seq<char>, u16>, ctr: int) -> Map<
    Seq<char>,
    u16,
>
    decreases ins.len(),
{
    if ins.len() == 0 {
        m
    } else {
        match ins[0] {
            InstrV::Label(name) => reg_labels(ins.drop_first(), m.insert(name, ctr as u16), ctr),
            _ => reg_labels(ins.drop_first(), m, ctr + 1),
        }
    }
}

/// Pass 2 as a function: the opcodes of `ins` under the bindings `m`, with
/// `next` the next free variable address; yields the opcodes, the final
/// bindings and the final counter. Labels emit nothing; a bound symbol
/// resolves to its address; an unbound one is allocated `next`.
pub open spec fn encode(ins: Seq<InstrV>, m: Map<Seq<char>, u16>, next: int) -> (
    Seq<u16>,
    Map<Seq<char>, u16>,
    int,
)
    decreases ins.len(),
{
    if ins.len() == 0 {
        (Seq::<u16>::empty(), m, next)
    } else {
        match ins[0] {
            InstrV::Label(_) => encode(ins.drop_first(), m, next),
            InstrV::C { dest, comp, jump } => {
                let r = encode(ins.drop_first(), m, next);
                (seq![c_opcode(dest, comp, jump)] + r.0, r.1, r.2)
            },
            InstrV::A(LoadV::Value(v)) => {
                let r = encode(ins.drop_first(), m, next);
                (seq![v] + r.0, r.1, r.2)
            },
            InstrV::A(LoadV::Symbol(name)) => {
                if m.dom().contains(name) {
                    let r = encode(ins.drop_first(), m, next);
                    (seq![m[name]] + r.0, r.1, r.2)
                } else {
                    let r = encode(ins.drop_first(), m.insert(name, next as u16), next + 1);
                    (seq![next as u16] + r.0, r.1, r.2)
                }
            },
        }
    }
}

/// The opcodes the whole pipeline assigns to `ins`: labels registered onto
/// the seeded table, then everything encoded with variables from 16 up.
pub open spec fn generated_opcodes(ins: Seq<InstrV>) -> Seq<u16> {
    encode(ins, reg_labels(ins, seeded_map(), 0), 16).0
}

/// Register every label of `ins` in `st`, bound to the count of non-label
/// instructions before it.
pub fn add_labels(ins: &Vec<Instr>, st: &mut SymbolTable)
    requires
        ins@.len() <= 0xFFFF,
    ensures
        final(st).addr_map() == reg_labels(ins.deep_view(), old(st).addr_map(), 0),
        final(st).next_free() == old(st).next_free(),
{
    let ghost full = ins.deep_view();
    proof {
        assert(full.skip(0) =~= full);
    }
    let mut ctr: u16 = 0;
    let mut i: usize = 0;
    while i < ins.len()
        invariant
            full == ins.deep_view(),
            full.len() == ins@.len() <= 0xFFFF,
            i <= ins@.len(),
            ctr <= i,
            st.next_free() == old(st).next_free(),
            reg_labels(full, old(st).addr_map(), 0) == reg_labels(
                full.skip(i as int),
                st.addr_map(),
                ctr as int,
            ),
        decreases ins@.len() - i,
    {
        proof {
            assert(full.skip(i as int).drop_first() =~= full.skip(i + 1));
            assert(full.skip(i as int)[0] == ins@[i as int].deep_view());
        }
        match &ins[i] {
            Instr::Label(l) => {
                st.add(l.clone(), ctr);
            },
            _ => {
                ctr += 1;
            },
        }
        i += 1;
    }
    proof {
        assert(full.skip(full.len() as int) =~= Seq::<InstrV>::empty());
    }
}

/// The opcode of one instruction, or nothing for a label. A bound symbol
/// resolves to its address; an unbound one receives the next free variable
/// address.
pub fn instr_to_code(instr: &Instr, st: &mut SymbolTable) -> (r: Option<Opcode>)
    requires
        old(st).next_free() < 0xFFFF,
    ensures
        match instr@ {
            InstrV::Label(_) => r is None && final(st).addr_map() == old(st).addr_map()
                && final(st).next_free() == old(st).next_free(),
            InstrV::C { dest, comp, jump } => r == Some(c_opcode(dest, comp, jump))
                && final(st).addr_map() == old(st).addr_map()
                && final(st).next_free() == old(st).next_free(),
            InstrV::A(l) => r == Some(load_opcode(l, old(st).addr_map(), old(st).next_free()))
                && match l {
                LoadV::Value(_) => final(st).addr_map() == old(st).addr_map()
                    && final(st).next_free() == old(st).next_free(),
                LoadV::Symbol(name) => if old(st).addr_map().dom().contains(name) {
                    final(st).addr_map() == old(st).addr_map()
                        && final(st).next_free() == old(st).next_free()
                } else {
                    final(st).addr_map() == old(st).addr_map().insert(name, old(st).next_free())
                        && final(st).next_free() == old(st).next_free() + 1
                },
            },
        },
{
    match instr {
        Instr::A(l) => Some(load_to_code(l, st)),
        Instr::C { dest, comp, jump } => Some(c_to_code(*dest, *comp, *jump)),
        Instr::Label(_) => None,
    }
}

/// The opcode a load instruction resolves to under the bindings `m` with
/// next free variable address `next`.
pub open spec fn load_opcode(l: LoadV, m: Map<Seq<char>, u16>, next: u16) -> u16 {
    match l {
        LoadV::Value(v) => v,
        LoadV::Symbol(name) => if m.dom().contains(name) {
            m[name]
        } else {
            next
        },
    }
}

/// The opcode of a load instruction: a literal value stands for itself; a
/// symbol resolves to its bound address, or to a freshly allocated variable
/// address.
pub fn load_to_code(load: &Load, st: &mut SymbolTable) -> (r: Opcode)
    requires
        old(st).next_free() < 0xFFFF,
    ensures
        r == load_opcode(load@, old(st).addr_map(), old(st).next_free()),
        match load@ {
            LoadV::Value(_) => final(st).addr_map() == old(st).addr_map() && final(st).next_free()
                == old(st).next_free(),
            LoadV::Symbol(name) => if old(st).addr_map().dom().contains(name) {
                final(st).addr_map() == old(st).addr_map()
                    && final(st).next_free() == old(st).next_free()
            } else {
                final(st).addr_map() == old(st).addr_map().insert(name, old(st).next_free())
                    && final(st).next_free() == old(st).next_free() + 1
            },
        },
{
    match load {
        Load::Value(n) => *n,
        Load::Symbol(s) => match st.addr_of(s.as_str()) {
            Some(addr) => addr,
            None => st.add_variable(s.clone()),
        },
    }
}

/// The opcode of a C-instruction: the fixed `111` prefix with the three
/// mnemonic codes packed into their fields.
pub fn c_to_code(dest: CDest, comp: Comp, jump: Jump) -> (r: Opcode)
    ensures
        r == c_opcode(dest, comp, jump),
{
    let j: u16 = jump.code() as u16;
    let d: u16 = dest.code() as u16;
    let c: u16 = comp.code() as u16;
    proof {
        assert(comp_code(comp) < 128);
        assert(dest_code(dest) < 8);
        assert(jump_code(jump) < 8);
    }
    0b1110_0000_0000_0000 + c * 64 + d * 8 + j
}

/// Two to the power `k`.
pub open spec fn pow2(k: nat) -> nat
    decreases k,
{
    if k == 0 {
        1
    } else {
        2 * pow2((k - 1) as nat)
    }
}

/// The binary rendering of `op`: 16 characters, most significant bit first.
pub open spec fn bin_str(op: u16) -> Seq<char> {
    Seq::new(
        16,
        |i: int|
            if (op as nat / pow2((15 - i) as nat)) % 2 == 1 {
                '1'
            } else {
                '0'
            },
    )
}

/// The textual output for a sequence of opcodes: each rendered as 16 binary
/// digits followed by a newline.
pub open spec fn opcodes_text(ops: Seq<u16>) -> Seq<char>
    decreases ops.len(),
{
    if ops.len() == 0 {
        Seq::<char>::empty()
    } else {
        bin_str(ops[0]) + seq!['\n'] + opcodes_text(ops.drop_first())
    }
}

fn pow2_16(k: usize) -> (r: u16)
    requires
        k < 16,
    ensures
        r as nat == pow2(k as nat),
        r >= 1,
{
    proof {
        reveal_with_fuel(pow2, 17);
    }
    match k {
        0 => 1,
        1 => 2,
        2 => 4,
        3 => 8,
        4 => 16,
        5 => 32,
        6 => 64,
        7 => 128,
        8 => 256,
        9 => 512,
        10 => 1024,
        11 => 2048,
        12 => 4096,
        13 => 8192,
        14 => 16384,
        _ => 32768,
    }
}

fn bin_chars(op: u16) -> (r: Vec<char>)
    ensures
        r@ == bin_str(op),
{
    let mut out: Vec<char> = Vec::new();
    let mut k: usize = 0;
    while k < 16
        invariant
            k <= 16,
            out@.len() == k,
            forall|j: int| 0 <= j < k ==> out@[j] == bin_str(op)[j],
        decreases 16 - k,
    {
        let p: u16 = pow2_16(15 - k);
        let d: u16 = (op / p) % 2;
        out.push(if d == 1 {
            '1'
        } else {
            '0'
        });
        k += 1;
    }
    proof {
        assert(out@ =~= bin_str(op));
    }
    out
}

/// Render each opcode as a 16-character zero-padded binary line.
pub fn opcodes_to_string(opcodes: &[Opcode]) -> (r: String)
    ensures
        r@ == opcodes_text(opcodes@),
{
    let mut out: Vec<char> = Vec::new();
    proof {
        assert(opcodes@.skip(0) =~= opcodes@);
    }
    let mut i: usize = 0;
    while i < opcodes.len()
        invariant
            i <= opcodes@.len(),
            opcodes_text(opcodes@) == out@ + opcodes_text(opcodes@.skip(i as int)),
        decreases opcodes@.len() - i,
    {
        let ghost before = out@;
        let b: Vec<char> = bin_chars(opcodes[i]);
        push_chars(&mut out, &b);
        out.push('\n');
        proof {
            assert(opcodes@.skip(i as int).drop_first() =~= opcodes@.skip(i + 1));
            assert(opcodes@.skip(i as int)[0] == opcodes@[i as int]);
            assert(before + opcodes_text(opcodes@.skip(i as int)) =~= out@ + opcodes_text(
                opcodes@.skip(i + 1),
            ));
        }
        i += 1;
    }
    proof {
        assert(opcodes@.skip(opcodes@.len() as int) =~= Seq::<u16>::empty());
        assert(out@ =~= opcodes_text(opcodes@));
    }
    string_from_chars(&out)
}

/// Generate the opcode sequence of a fully parsed program: labels are
/// registered first, then every non-label instruction is encoded in order.
pub fn codegen_instructions(ins: Vec<Instr>) -> (r: Vec<Opcode>)
    requires
        ins@.len() <= 0xFFEF,
    ensures
        r@ == generated_opcodes(ins.deep_view()),
{
    let ghost full = ins.deep_view();
    let mut symbol_table = SymbolTable::new();
    add_labels(&ins, &mut symbol_table);
    let ghost m1 = reg_labels(full, seeded_map(), 0);
    let mut out: Vec<Opcode> = Vec::new();
    proof {
        assert(full.skip(0) =~= full);
        assert(out@ + encode(full, m1, 16).0 =~= encode(full, m1, 16).0);
    }
    let mut i: usize = 0;
    while i < ins.len()
        invariant
            full == ins.deep_view(),
            full.len() == ins@.len() <= 0xFFEF,
            i <= ins@.len(),
            symbol_table.next_free() as int <= 16 + i,
            encode(full, m1, 16).0 == out@ + encode(
                full.skip(i as int),
                symbol_table.addr_map(),
                symbol_table.next_free() as int,
            ).0,
            encode(full, m1, 16).1 == encode(
                full.skip(i as int),
                symbol_table.addr_map(),
                symbol_table.next_free() as int,
            ).1,
            encode(full, m1, 16).2 == encode(
                full.skip(i as int),
                symbol_table.addr_map(),
                symbol_table.next_free() as int,
            ).2,
        decreases ins@.len() - i,
    {
        proof {
            assert(full.skip(i as int).drop_first() =~= full.skip(i + 1));
            assert(full.skip(i as int)[0] == ins@[i as int].deep_view());
        }
        let ghost before = out@;
        match instr_to_code(&ins[i], &mut symbol_table) {
            Some(op) => {
                out.push(op);
                proof {
                    assert(before + (seq![op] + encode(
                        full.skip(i + 1),
                        symbol_table.addr_map(),
                        symbol_table.next_free() as int,
                    ).0) =~= out@ + encode(
                        full.skip(i + 1),
                        symbol_table.addr_map(),
                        symbol_table.next_free() as int,
                    ).0);
                }
            },
            None => {},
        }
        i += 1;
    }
    proof {
        assert(full.skip(full.len() as int) =~= Seq::<InstrV>::empty());
        assert(out@ =~= generated_opcodes(full));
    }
    out
}

/// The count of non-label instructions in `ins`: the number of opcodes the
/// program occupies.
pub open spec fn non_label_count(ins: Seq<InstrV>) -> int
    decreases ins.len(),
{
    if ins.len() == 0 {
        0
    } else {
        (match ins[0] {
            InstrV::Label(_) => 0int,
            _ => 1int,
        }) + non_label_count(ins.drop_first())
    }
}

proof fn lemma_count_bounds(ins: Seq<InstrV>)
    ensures
        0 <= non_label_count(ins) <= ins.len(),
    decreases ins.len(),
{
    if ins.len() > 0 {
        lemma_count_bounds(ins.drop_first());
    }
}
/// Law: encoding emits exactly one opcode for every non-label instruction,
/// so the output length is the count of non-label instructions.
pub proof fn lemma_encode_len(ins: Seq<InstrV>, m: Map<Seq<char>, u16>, next: int)
    ensures
        encode(ins, m, next).0.len() == non_label_count(ins),
    decreases ins.len(),
{
    if ins.len() > 0 {
        match ins[0] {
            InstrV::A(LoadV::Symbol(name)) => {
                if m.dom().contains(name) {
                    lemma_encode_len(ins.drop_first(), m, next);
                } else {
                    lemma_encode_len(ins.drop_first(), m.insert(name, next as u16), next + 1);
                }
            },
            _ => {
                lemma_encode_len(ins.drop_first(), m, next);
            },
        }
    }
}

/// Law: a load instruction holding the literal value `v` encodes to the
/// opcode `v` itself, whatever the bindings; it stands in the output at the
/// position given by the count of non-label instructions before it.
pub proof fn lemma_literal_load_opcode(
    ins: Seq<InstrV>,
    m: Map<Seq<char>, u16>,
    next: int,
    k: int,
    v: u16,
)
    requires
        0 <= k < ins.len(),
        ins[k] == InstrV::A(LoadV::Value(v)),
    ensures
        0 <= non_label_count(ins.take(k)) < encode(ins, m, next).0.len(),
        encode(ins, m, next).0[non_label_count(ins.take(k))] == v,
    decreases k,
{
    lemma_encode_len(ins, m, next);
    let tail = ins.drop_first();
    if k == 0 {
        assert(ins.take(0) =~= Seq::<InstrV>::empty());
        lemma_count_bounds(tail);
    } else {
        assert(ins.take(k).drop_first() =~= tail.take(k - 1));
        lemma_count_bounds(tail.take(k - 1));
        match ins[0] {
            InstrV::A(LoadV::Symbol(name)) => {
                if m.dom().contains(name) {
                    lemma_literal_load_opcode(tail, m, next, k - 1, v);
                } else {
                    lemma_literal_load_opcode(
                        tail,
                        m.insert(name, next as u16),
                        next + 1,
                        k - 1,
                        v,
                    );
                }
            },
            _ => {
                lemma_literal_load_opcode(tail, m, next, k - 1, v);
            },
        }
    }
}

proof fn lemma_reg_labels_other(
    ins: Seq<InstrV>,
    m: Map<Seq<char>, u16>,
    ctr: int,
    name: Seq<char>,
)
    requires
        forall|j: int| 0 <= j < ins.len() ==> #[trigger] ins[j] != InstrV::Label(name),
    ensures
        reg_labels(ins, m, ctr).dom().contains(name) == m.dom().contains(name),
        m.dom().contains(name) ==> reg_labels(ins, m, ctr)[name] == m[name],
    decreases ins.len(),
{
    if ins.len() > 0 {
        match ins[0] {
            InstrV::Label(other) => {
                lemma_reg_labels_other(ins.drop_first(), m.insert(other, ctr as u16), ctr, name);
            },
            _ => {
                lemma_reg_labels_other(ins.drop_first(), m, ctr + 1, name);
            },
        }
    }
}

/// Law: a label declared at position `k`, and not declared again later,
/// resolves to `ctr` plus the count of non-label instructions strictly
/// before it; the pipeline starts with `ctr == 0`.
pub proof fn lemma_label_addresses(
    ins: Seq<InstrV>,
    m: Map<Seq<char>, u16>,
    ctr: int,
    k: int,
    name: Seq<char>,
)
    requires
        0 <= k < ins.len(),
        ins[k] == InstrV::Label(name),
        forall|j: int| k < j < ins.len() ==> #[trigger] ins[j] != InstrV::Label(name),
        0 <= ctr,
        ctr + non_label_count(ins) <= 0xFFFF,
    ensures
        reg_labels(ins, m, ctr).dom().contains(name),
        reg_labels(ins, m, ctr)[name] == ctr + non_label_count(ins.take(k)),
    decreases k,
{
    lemma_count_bounds(ins);
    let tail = ins.drop_first();
    if k == 0 {
        assert(ins.take(0) =~= Seq::<InstrV>::empty());
        lemma_count_bounds(tail);
        assert(forall|j: int| 0 <= j < tail.len() ==> #[trigger] tail[j] == ins[j + 1]);
        lemma_reg_labels_other(tail, m.insert(name, ctr as u16), ctr, name);
    } else {
        assert(ins.take(k).drop_first() =~= tail.take(k - 1));
        assert(forall|j: int| 0 <= j < tail.len() ==> #[trigger] tail[j] == ins[j + 1]);
        lemma_count_bounds(tail);
        match ins[0] {
            InstrV::Label(other) => {
                lemma_label_addresses(tail, m.insert(other, ctr as u16), ctr, k - 1, name);
            },
            _ => {
                lemma_label_addresses(tail, m, ctr + 1, k - 1, name);
            },
        }
    }
}

/// Law: a name already bound before encoding (a predefined constant or a
/// registered label) never receives a fresh variable address: its binding
/// survives the encoding pass unchanged.
pub proof fn lemma_bound_names_keep_address(
    ins: Seq<InstrV>,
    m: Map<Seq<char>, u16>,
    next: int,
    name: Seq<char>,
)
    requires
        m.dom().contains(name),
    ensures
        encode(ins, m, next).1.dom().contains(name),
        encode(ins, m, next).1[name] == m[name],
    decreases ins.len(),
{
    if ins.len() > 0 {
        match ins[0] {
            InstrV::A(LoadV::Symbol(other)) => {
                if m.dom().contains(other) {
                    lemma_bound_names_keep_address(ins.drop_first(), m, next, name);
                } else {
                    lemma_bound_names_keep_address(
                        ins.drop_first(),
                        m.insert(other, next as u16),
                        next + 1,
                        name,
                    );
                }
            },
            _ => {
                lemma_bound_names_keep_address(ins.drop_first(), m, next, name);
            },
        }
    }
}

/// The unbound symbols loaded by `ins`, each at its first occurrence, in
/// source order; `bound` holds the names that already have addresses.
pub open spec fn fresh_syms(ins: Seq<InstrV>, bound: Set<Seq<char>>) -> Seq<Seq<char>>
    decreases ins.len(),
{
    if ins.len() == 0 {
        Seq::<Seq<char>>::empty()
    } else {
        match ins[0] {
            InstrV::A(LoadV::Symbol(name)) => if !bound.contains(name) {
                seq![name] + fresh_syms(ins.drop_first(), bound.insert(name))
            } else {
                fresh_syms(ins.drop_first(), bound)
            },
            _ => fresh_syms(ins.drop_first(), bound),
        }
    }
}

/// Law: variable symbols receive addresses `next`, `next + 1`, `next + 2`,
/// ... strictly in order of first occurrence among the loads of symbols
/// without an address; the pipeline starts with `next == 16`.
pub proof fn lemma_variable_addresses(
    ins: Seq<InstrV>,
    m: Map<Seq<char>, u16>,
    next: int,
    k: int,
)
    requires
        0 <= k < fresh_syms(ins, m.dom()).len(),
        0 <= next,
        next + fresh_syms(ins, m.dom()).len() <= 0x10000,
    ensures
        encode(ins, m, next).1.dom().contains(fresh_syms(ins, m.dom())[k]),
        encode(ins, m, next).1[fresh_syms(ins, m.dom())[k]] == next + k,
    decreases ins.len(),
{
    let tail = ins.drop_first();
    match ins[0] {
        InstrV::A(LoadV::Symbol(name)) => {
            if m.dom().contains(name) {
                lemma_variable_addresses(tail, m, next, k);
            } else {
                let m2 = m.insert(name, next as u16);
                assert(m2.dom() =~= m.dom().insert(name));
                if k == 0 {
                    lemma_bound_names_keep_address(tail, m2, next + 1, name);
                } else {
                    lemma_variable_addresses(tail, m2, next + 1, k - 1);
                }
            }
        },
        _ => {
            lemma_variable_addresses(tail, m, next, k);
        },
    }
}

} // verus!
