use vstd::prelude::*;
use vstd::string::*;

use crate::code::{comp_code, dest_code, jump_code, Code};
use crate::error::AsmError;
use crate::parser::{
    classify, comp_field, comp_of, dest_field, dest_of, is_skipped, jump_field, jump_of, kind_of,
    lines_view, skipped, symbol_field, symbol_of, InstructionType,
};
use crate::symbol_table::{predefined, SymbolTable};

verus! {

/// The largest address a word can hold.
pub const MAX_ADDRESS: u64 = 0xffff;

/// The first data address handed to a variable.
pub const FIRST_VARIABLE: u64 = 16;

/// Lines that take a slot in the program: address and computation instructions.
pub open spec fn occupies_word(l: Seq<char>) -> bool {
    !is_skipped(l) && (kind_of(l) == Some(InstructionType::A) || kind_of(l) == Some(
        InstructionType::C,
    ))
}

/// How many instruction words the lines take.
pub open spec fn word_count(ls: Seq<Seq<char>>) -> nat
    decreases ls.len(),
{
    if ls.len() == 0 {
        0
    } else {
        word_count(ls.drop_last()) + if occupies_word(ls.last()) {
            1nat
        } else {
            0nat
        }
    }
}

/// The table after label collection over `ls`, starting from `t`: each label is bound to
/// the number of words before it.
pub open spec fn pass_one(ls: Seq<Seq<char>>, t: Map<Seq<char>, u16>) -> Result<
    Map<Seq<char>, u16>,
    AsmError,
>
    decreases ls.len(),
{
    if ls.len() == 0 {
        Ok(t)
    } else {
        match pass_one(ls.drop_last(), t) {
            Err(e) => Err(e),
            Ok(m) => {
                let l = ls.last();
                if is_skipped(l) {
                    Ok(m)
                } else {
                    match kind_of(l) {
                        None => Err(AsmError::MalformedLine),
                        Some(InstructionType::L) => {
                            let pc = word_count(ls.drop_last());
                            if pc <= MAX_ADDRESS {
                                Ok(m.insert(symbol_of(l), pc as u16))
                            } else {
                                Err(AsmError::AddressOverflow)
                            }
                        },
                        Some(_) => Ok(m),
                    }
                }
            },
        }
    }
}

/// The sixteen binary digits of `v`, most significant first.
pub open spec fn word(v: u16) -> Seq<char> {
    Seq::new(16, |i: int| if (v >> ((15 - i) as u16)) & 1u16 == 1u16 { '1' } else { '0' })
}

/// A word as a line of the output.
pub open spec fn word_line(v: u16) -> Seq<char> {
    word(v) + "\n"@
}

pub open spec fn is_digit(c: char) -> bool {
    '0' <= c && c <= '9'
}

/// The number a string of decimal digits stands for.
pub open spec fn decimal_value(s: Seq<char>) -> nat
    decreases s.len(),
{
    if s.len() == 0 {
        0
    } else {
        decimal_value(s.drop_last()) * 10 + (s.last() as u32 - '0' as u32) as nat
    }
}

/// An operand that is a number fitting in a word.
pub open spec fn is_literal(s: Seq<char>) -> bool {
    s.len() > 0 && (forall|i: int| 0 <= i < s.len() ==> is_digit(#[trigger] s[i]))
        && decimal_value(s) <= MAX_ADDRESS
}

/// The table, the next free variable address and the output so far.
pub type PassState = (Map<Seq<char>, u16>, nat, Seq<char>);

/// What translating an address instruction with operand `sym` does to the state.
pub open spec fn address_step(st: PassState, sym: Seq<char>) -> Result<PassState, AsmError> {
    let (m, c, o) = st;
    if is_literal(sym) {
        Ok((m, c, o + word_line(decimal_value(sym) as u16)))
    } else if m.contains_key(sym) {
        Ok((m, c, o + word_line(m[sym])))
    } else if c <= MAX_ADDRESS {
        Ok((m.insert(sym, c as u16), c + 1, o + word_line(c as u16)))
    } else {
        Err(AsmError::AddressOverflow)
    }
}

/// The word of a computation line, or why it has none.
pub open spec fn compute_word(l: Seq<char>) -> Result<Seq<char>, AsmError> {
    match comp_code(comp_of(l)) {
        None => Err(AsmError::UnknownComp),
        Some(cc) => match jump_code(jump_of(l)) {
            None => Err(AsmError::UnknownJump),
            Some(jc) => Ok("111"@ + cc + dest_code(dest_of(l)) + jc),
        },
    }
}

/// What translating one line does to the state.
pub open spec fn step_two(st: PassState, l: Seq<char>) -> Result<PassState, AsmError> {
    if is_skipped(l) {
        Ok(st)
    } else {
        match kind_of(l) {
            None => Err(AsmError::MalformedLine),
            Some(InstructionType::L) => Ok(st),
            Some(InstructionType::A) => address_step(st, symbol_of(l)),
            Some(InstructionType::C) => match compute_word(l) {
                Err(e) => Err(e),
                Ok(w) => Ok((st.0, st.1, st.2 + w + "\n"@)),
            },
        }
    }
}

/// The state after resolution and emission over `ls` with the table `t` from label collection.
pub open spec fn pass_two(ls: Seq<Seq<char>>, t: Map<Seq<char>, u16>) -> Result<
    PassState,
    AsmError,
>
    decreases ls.len(),
{
    if ls.len() == 0 {
        Ok((t, FIRST_VARIABLE as nat, Seq::empty()))
    } else {
        match pass_two(ls.drop_last(), t) {
            Err(e) => Err(e),
            Ok(st) => step_two(st, ls.last()),
        }
    }
}

/// The output of both passes over `ls`, starting from the reserved names.
pub open spec fn assembled(ls: Seq<Seq<char>>) -> Result<Seq<char>, AsmError> {
    match pass_one(ls, predefined()) {
        Err(e) => Err(e),
        Ok(t) => match pass_two(ls, t) {
            Err(e) => Err(e),
            Ok(st) => Ok(st.2),
        },
    }
}

/// Lines `0..k` of `ls`; a prefix that ends in an error keeps that error.
proof fn lemma_pass_one_err(ls: Seq<Seq<char>>, t: Map<Seq<char>, u16>, k: int)
    requires
        0 <= k <= ls.len(),
        pass_one(ls.take(k), t) is Err,
    ensures
        pass_one(ls, t) == pass_one(ls.take(k), t),
    decreases ls.len(),
{
    if k == ls.len() {
        assert(ls.take(k) =~= ls);
    } else {
        assert(ls.drop_last().take(k) =~= ls.take(k));
        lemma_pass_one_err(ls.drop_last(), t, k);
    }
}

proof fn lemma_pass_two_err(ls: Seq<Seq<char>>, t: Map<Seq<char>, u16>, k: int)
    requires
        0 <= k <= ls.len(),
        pass_two(ls.take(k), t) is Err,
    ensures
        pass_two(ls, t) == pass_two(ls.take(k), t),
    decreases ls.len(),
{
    if k == ls.len() {
        assert(ls.take(k) =~= ls);
    } else {
        assert(ls.drop_last().take(k) =~= ls.take(k));
        lemma_pass_two_err(ls.drop_last(), t, k);
    }
}

/// Label collection: binds each label to the number of instruction words before it.
pub fn first_pass(lines: &Vec<String>, symbol_table: &mut SymbolTable) -> (r: Result<
    (),
    AsmError,
>)
    requires
        old(symbol_table).wf(),
    ensures
        final(symbol_table).wf(),
        match pass_one(lines_view(lines@), old(symbol_table)@) {
            Ok(m) => r is Ok && final(symbol_table)@ == m,
            Err(e) => r matches Err(x) && x == e,
        },
{
    let ghost ls = lines_view(lines@);
    let ghost t0 = symbol_table@;
    let mut row: u64 = 0;
    let mut i: usize = 0;
    while i < lines.len()
        invariant
            symbol_table.wf(),
            i <= lines@.len(),
            ls == lines_view(lines@),
            t0 == old(symbol_table)@,
            pass_one(ls.take(i as int), t0) == Ok::<Map<Seq<char>, u16>, AsmError>(symbol_table@),
            row == word_count(ls.take(i as int)),
            row <= i,
        decreases lines@.len() - i,
    {
        let line = lines[i].as_str();
        proof {
            assert(ls.take(i + 1).drop_last() =~= ls.take(i as int));
            assert(ls.take(i + 1).last() == line@);
        }
        if !skipped(line) {
            match classify(line) {
                Err(e) => {
                    proof { lemma_pass_one_err(ls, t0, i + 1); }
                    return Err(e);
                },
                Ok(InstructionType::L) => {
                    if row > MAX_ADDRESS {
                        proof { lemma_pass_one_err(ls, t0, i + 1); }
                        return Err(AsmError::AddressOverflow);
                    }
                    let name = symbol_field(line);
                    symbol_table.add_entry(name.as_str(), row as u16);
                },
                Ok(_) => {
                    row = row + 1;
                },
            }
        }
        i = i + 1;
    }
    proof { assert(ls.take(i as int) =~= ls); }
    Ok(())
}

/// The output line of the word that holds `v`: sixteen binary digits and a newline.
pub fn format_16bit_binary_string(v: u16) -> (r: String)
    ensures
        r@ == word_line(v),
{
    let mut out = String::new();
    let mut k: u16 = 16;
    proof {
        reveal_strlit("0");
        reveal_strlit("1");
    }
    while k > 0
        invariant
            k <= 16,
            out@ =~= word(v).subrange(0, 16 - k as int),
            "0"@ == seq!['0'],
            "1"@ == seq!['1'],
        decreases k,
    {
        k = k - 1;
        if (v >> k) & 1 == 1 {
            out.append("1");
        } else {
            out.append("0");
        }
        assert(out@ =~= word(v).subrange(0, 16 - k as int));
    }
    out.append("\n");
    out
}

/// The value of an operand that is a number fitting in a word; `None` for any other operand.
pub fn parse_literal(s: &str) -> (r: Option<u16>)
    ensures
        r is Some <==> is_literal(s@),
        r matches Some(v) ==> v == decimal_value(s@),
{
    let n = s.unicode_len();
    if n == 0 {
        return None;
    }
    let mut acc: u64 = 0;
    let mut i: usize = 0;
    while i < n
        invariant
            n == s@.len(),
            i <= n,
            forall|j: int| 0 <= j < i ==> is_digit(#[trigger] s@[j]),
            acc == if decimal_value(s@.take(i as int)) <= MAX_ADDRESS {
                decimal_value(s@.take(i as int))
            } else {
                MAX_ADDRESS as nat + 1
            },
        decreases n - i,
    {
        let c = s.get_char(i);
        if !('0' <= c && c <= '9') {
            assert(!is_digit(s@[i as int]));
            return None;
        }
        proof {
            assert(s@.take(i + 1).drop_last() =~= s@.take(i as int));
        }
        let d = (c as u32 - '0' as u32) as u64;
        if acc <= MAX_ADDRESS {
            acc = acc * 10 + d;
        }
        if acc > MAX_ADDRESS {
            acc = MAX_ADDRESS + 1;
        }
        i = i + 1;
    }
    assert(s@.take(n as int) =~= s@);
    if acc <= MAX_ADDRESS {
        Some(acc as u16)
    } else {
        None
    }
}

/// The word of a computation line, without the newline.
pub fn compute_instruction(line: &str) -> (r: Result<String, AsmError>)
    ensures
        match compute_word(line@) {
            Ok(w) => r matches Ok(s) && s@ == w,
            Err(e) => r matches Err(x) && x == e,
        },
{
    let dest = Code::dest(dest_field(line));
    let comp = match Code::comp(comp_field(line)) {
        Ok(c) => c,
        Err(e) => return Err(e),
    };
    let jump = match Code::jump(jump_field(line)) {
        Ok(j) => j,
        Err(e) => return Err(e),
    };
    let mut out = String::from_str("111");
    out.append(comp.as_str());
    out.append(dest.as_str());
    out.append(jump.as_str());
    Ok(out)
}

/// Resolution and emission: the output text, one line per address or computation
/// instruction. Operands that are neither numbers nor bound names become variables, bound
/// to data addresses from 16 on in order of first use.
pub fn second_pass(lines: &Vec<String>, symbol_table: &mut SymbolTable) -> (r: Result<
    String,
    AsmError,
>)
    requires
        old(symbol_table).wf(),
    ensures
        final(symbol_table).wf(),
        match pass_two(lines_view(lines@), old(symbol_table)@) {
            Ok(st) => r matches Ok(s) && s@ == st.2 && final(symbol_table)@ == st.0,
            Err(e) => r matches Err(x) && x == e,
        },
{
    let ghost ls = lines_view(lines@);
    let ghost t0 = symbol_table@;
    let mut out = String::new();
    let mut cursor: u64 = FIRST_VARIABLE;
    let mut i: usize = 0;
    while i < lines.len()
        invariant
            symbol_table.wf(),
            i <= lines@.len(),
            ls == lines_view(lines@),
            t0 == old(symbol_table)@,
            pass_two(ls.take(i as int), t0) == Ok::<PassState, AsmError>(
                (symbol_table@, cursor as nat, out@),
            ),
            cursor <= FIRST_VARIABLE + i,
        decreases lines@.len() - i,
    {
        let line = lines[i].as_str();
        proof {
            assert(ls.take(i + 1).drop_last() =~= ls.take(i as int));
            assert(ls.take(i + 1).last() == line@);
        }
        if !skipped(line) {
            match classify(line) {
                Err(e) => {
                    proof { lemma_pass_two_err(ls, t0, i + 1); }
                    return Err(e);
                },
                Ok(InstructionType::L) => {},
                Ok(InstructionType::A) => {
                    let symbol = symbol_field(line);
                    match parse_literal(symbol.as_str()) {
                        Some(v) => {
                            out.append(format_16bit_binary_string(v).as_str());
                        },
                        None => {
                            if symbol_table.contains(symbol.as_str()) {
                                let address = symbol_table.get_address(symbol.as_str());
                                out.append(format_16bit_binary_string(address).as_str());
                            } else {
                                if cursor > MAX_ADDRESS {
                                    proof { lemma_pass_two_err(ls, t0, i + 1); }
                                    return Err(AsmError::AddressOverflow);
                                }
                                symbol_table.add_entry(symbol.as_str(), cursor as u16);
                                out.append(format_16bit_binary_string(cursor as u16).as_str());
                                cursor = cursor + 1;
                            }
                        },
                    }
                },
                Ok(InstructionType::C) => {
                    match compute_instruction(line) {
                        Ok(w) => {
                            out.append(w.as_str());
                            out.append("\n");
                        },
                        Err(e) => {
                            proof { lemma_pass_two_err(ls, t0, i + 1); }
                            return Err(e);
                        },
                    }
                },
            }
        }
        i = i + 1;
    }
    proof { assert(ls.take(i as int) =~= ls); }
    Ok(out)
}

/// Translates a whole program: label collection, then resolution and emission, over a table
/// that starts with the reserved names.
pub fn assemble(lines: &Vec<String>) -> (r: Result<String, AsmError>)
    ensures
        match assembled(lines_view(lines@)) {
            Ok(o) => r matches Ok(s) && s@ == o,
            Err(e) => r matches Err(x) && x == e,
        },
{
    let mut symbol_table = SymbolTable::new();
    match first_pass(lines, &mut symbol_table) {
        Err(e) => return Err(e),
        Ok(()) => {},
    }
    second_pass(lines, &mut symbol_table)
}

/// The variables of `ls` in order of first use: operands of address lines that are neither
/// numbers nor bound in `t`, each taken once.
pub open spec fn first_uses(ls: Seq<Seq<char>>, t: Map<Seq<char>, u16>) -> Seq<Seq<char>>
    decreases ls.len(),
{
    if ls.len() == 0 {
        Seq::empty()
    } else {
        let v = first_uses(ls.drop_last(), t);
        let l = ls.last();
        let sym = symbol_of(l);
        if !is_skipped(l) && kind_of(l) == Some(InstructionType::A) && !is_literal(sym)
            && !t.contains_key(sym) && !v.contains(sym) {
            v.push(sym)
        } else {
            v
        }
    }
}

/// Variables are allocated in order of first use: the first is bound to address 16, the
/// second to 17, and so on, however often each is used again. Resolution leaves every name
/// that was bound before it where it was, and binds nothing else.
pub proof fn lemma_variables_in_first_use_order(ls: Seq<Seq<char>>, t: Map<Seq<char>, u16>)
    requires
        pass_two(ls, t) is Ok,
    ensures
        ({
            let st = pass_two(ls, t)->Ok_0;
            let v = first_uses(ls, t);
            &&& st.1 == FIRST_VARIABLE + v.len()
            &&& forall|n: int|
                0 <= n < v.len() ==> st.0.contains_key(#[trigger] v[n]) && st.0[v[n]] == (
                FIRST_VARIABLE + n) as u16
            &&& forall|key: Seq<char>| #[trigger]
                st.0.contains_key(key) <==> t.contains_key(key) || v.contains(key)
            &&& forall|key: Seq<char>| #[trigger]
                t.contains_key(key) ==> st.0[key] == t[key]
        }),
    decreases ls.len(),
{
    if ls.len() > 0 {
        lemma_variables_in_first_use_order(ls.drop_last(), t);
        let st = pass_two(ls.drop_last(), t)->Ok_0;
        let v = first_uses(ls.drop_last(), t);
        let l = ls.last();
        let sym = symbol_of(l);
        if !is_skipped(l) && kind_of(l) == Some(InstructionType::A) && !is_literal(sym)
            && !st.0.contains_key(sym) {
            let v2 = v.push(sym);
            assert(v2[v.len() as int] == sym);
            assert forall|key: Seq<char>| #[trigger] v2.contains(key) <==> v.contains(key) || key
                == sym by {
                if v.contains(key) {
                    let n = choose|n: int| 0 <= n < v.len() && v[n] == key;
                    assert(v2[n] == key);
                }
                if v2.contains(key) && key != sym {
                    let n = choose|n: int| 0 <= n < v2.len() && v2[n] == key;
                    assert(v[n] == key);
                }
            }
        }
    }
}

/// A reference to a label resolves to the label's address wherever it stands, before the
/// label's definition or after it: the line emitted for it is the word of the number of
/// instruction words that precede the label's last definition.
pub proof fn lemma_label_reference(ls: Seq<Seq<char>>, j: int, k: int)
    requires
        0 <= j < ls.len(),
        0 <= k < ls.len(),
        !is_skipped(ls[j]),
        kind_of(ls[j]) == Some(InstructionType::L),
        forall|i: int|
            j < i < ls.len() && !is_skipped(ls[i]) && kind_of(ls[i]) == Some(InstructionType::L)
                ==> symbol_of(#[trigger] ls[i]) != symbol_of(ls[j]),
        !is_skipped(ls[k]),
        kind_of(ls[k]) == Some(InstructionType::A),
        symbol_of(ls[k]) == symbol_of(ls[j]),
        !is_literal(symbol_of(ls[j])),
        pass_one(ls, predefined()) is Ok,
        pass_two(ls.take(k + 1), pass_one(ls, predefined())->Ok_0) is Ok,
    ensures
        ({
            let t1 = pass_one(ls, predefined())->Ok_0;
            pass_two(ls.take(k + 1), t1)->Ok_0.2 == pass_two(ls.take(k), t1)->Ok_0.2 + word_line(
                word_count(ls.take(j)) as u16,
            )
        }),
{
    let t1 = pass_one(ls, predefined())->Ok_0;
    let name = symbol_of(ls[j]);
    lemma_label_bound(ls, predefined(), j);
    assert(ls.take(k + 1).drop_last() =~= ls.take(k));
    assert(ls.take(k + 1).last() == ls[k]);
    lemma_variables_in_first_use_order(ls.take(k), t1);
}

/// Label collection binds a label to the number of words before its last definition.
proof fn lemma_label_bound(ls: Seq<Seq<char>>, t: Map<Seq<char>, u16>, j: int)
    requires
        0 <= j < ls.len(),
        !is_skipped(ls[j]),
        kind_of(ls[j]) == Some(InstructionType::L),
        forall|i: int|
            j < i < ls.len() && !is_skipped(ls[i]) && kind_of(ls[i]) == Some(InstructionType::L)
                ==> symbol_of(#[trigger] ls[i]) != symbol_of(ls[j]),
        pass_one(ls, t) is Ok,
    ensures
        pass_one(ls, t)->Ok_0.contains_key(symbol_of(ls[j])),
        pass_one(ls, t)->Ok_0[symbol_of(ls[j])] == word_count(ls.take(j)) as u16,
        word_count(ls.take(j)) <= MAX_ADDRESS,
    decreases ls.len(),
{
    if j == ls.len() - 1 {
        assert(ls.drop_last() =~= ls.take(j));
    } else {
        assert(ls.drop_last().take(j) =~= ls.take(j));
        assert(ls.drop_last()[j] == ls[j]);
        assert forall|i: int|
            j < i < ls.drop_last().len() && !is_skipped(ls.drop_last()[i]) && kind_of(
                ls.drop_last()[i],
            ) == Some(InstructionType::L) implies symbol_of(#[trigger] ls.drop_last()[i])
            != symbol_of(ls.drop_last()[j]) by {
            assert(ls.drop_last()[i] == ls[i]);
        }
        lemma_label_bound(ls.drop_last(), t, j);
        assert(ls.last() == ls[ls.len() - 1]);
    }
}

/// Translation depends on the program alone: two runs over the same lines, each from a fresh
/// table of reserved names, give the same output, or fail alike.
pub proof fn lemma_rerun_identical(
    ls1: Seq<Seq<char>>,
    ls2: Seq<Seq<char>>,
    t1: Map<Seq<char>, u16>,
    t2: Map<Seq<char>, u16>,
)
    requires
        ls1 == ls2,
        t1 == predefined(),
        t2 == predefined(),
    ensures
        pass_one(ls1, t1) == pass_one(ls2, t2),
        pass_one(ls1, t1) matches Ok(m) ==> pass_two(ls1, m) == pass_two(ls2, m),
        assembled(ls1) == assembled(ls2),
{
}

} // verus!
