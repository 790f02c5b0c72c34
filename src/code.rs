use vstd::prelude::*;
use vstd::string::*;

use crate::error::AsmError;

verus! {

/// The digit that stands for a flag.
pub open spec fn bit_of(b: bool) -> Seq<char> {
    if b { "1"@ } else { "0"@ }
}

/// The destination field: one bit each for `A`, `D` and `M`, in that order.
pub open spec fn dest_code(m: Seq<char>) -> Seq<char> {
    bit_of(m.contains('A')) + bit_of(m.contains('D')) + bit_of(m.contains('M'))
}

/// The computation field of each mnemonic of the architecture's table; `None` off the table.
pub open spec fn comp_code(m: Seq<char>) -> Option<Seq<char>> {
    if m == "0"@ {
        Some("0101010"@)
    } else if m == "1"@ {
        Some("0111111"@)
    } else if m == "-1"@ {
        Some("0111010"@)
    } else if m == "D"@ {
        Some("0001100"@)
    } else if m == "A"@ {
        Some("0110000"@)
    } else if m == "M"@ {
        Some("1110000"@)
    } else if m == "!D"@ {
        Some("0001101"@)
    } else if m == "!A"@ {
        Some("0110001"@)
    } else if m == "!M"@ {
        Some("1110001"@)
    } else if m == "-D"@ {
        Some("0001111"@)
    } else if m == "-A"@ {
        Some("0110011"@)
    } else if m == "-M"@ {
        Some("1110011"@)
    } else if m == "D+1"@ {
        Some("0011111"@)
    } else if m == "A+1"@ {
        Some("0110111"@)
    } else if m == "M+1"@ {
        Some("1110111"@)
    } else if m == "D-1"@ {
        Some("0001110"@)
    } else if m == "A-1"@ {
        Some("0110010"@)
    } else if m == "M-1"@ {
        Some("1110010"@)
    } else if m == "D+A"@ {
        Some("0000010"@)
    } else if m == "D+M"@ {
        Some("1000010"@)
    } else if m == "D-A"@ {
        Some("0010011"@)
    } else if m == "D-M"@ {
        Some("1010011"@)
    } else if m == "A-D"@ {
        Some("0000111"@)
    } else if m == "M-D"@ {
        Some("1000111"@)
    } else if m == "D&A"@ {
        Some("0000000"@)
    } else if m == "D&M"@ {
        Some("1000000"@)
    } else if m == "D|A"@ {
        Some("0010101"@)
    } else if m == "D|M"@ {
        Some("1010101"@)
    } else {
        None
    }
}

/// The jump field of each jump mnemonic, the empty one included; `None` for any other text.
pub open spec fn jump_code(m: Seq<char>) -> Option<Seq<char>> {
    if m == ""@ {
        Some("000"@)
    } else if m == "JGT"@ {
        Some("001"@)
    } else if m == "JEQ"@ {
        Some("010"@)
    } else if m == "JGE"@ {
        Some("011"@)
    } else if m == "JLT"@ {
        Some("100"@)
    } else if m == "JNE"@ {
        Some("101"@)
    } else if m == "JLE"@ {
        Some("110"@)
    } else if m == "JMP"@ {
        Some("111"@)
    } else {
        None
    }
}

/// The mnemonic with the primary operand register `A` replaced by the alternate one, `M`.
pub open spec fn with_alternate(m: Seq<char>) -> Seq<char> {
    m.map_values(|c: char| if c == 'A' { 'M' } else { c })
}

/// The fields of the mnemonics that name the alternate register.
#[verifier::rlimit(60)]
#[verifier::spinoff_prover]
proof fn lemma_comp_alternates()
    ensures
        comp_code("M"@) == Some("1110000"@),
        comp_code("!M"@) == Some("1110001"@),
        comp_code("-M"@) == Some("1110011"@),
        comp_code("M+1"@) == Some("1110111"@),
        comp_code("M-1"@) == Some("1110010"@),
        comp_code("D+M"@) == Some("1000010"@),
        comp_code("D-M"@) == Some("1010011"@),
        comp_code("M-D"@) == Some("1000111"@),
        comp_code("D&M"@) == Some("1000000"@),
        comp_code("D|M"@) == Some("1010101"@),
{
    assert(comp_code("M"@) == Some("1110000"@)) by {
        reveal_strlit("M");
        reveal_strlit("0");
        assert("0"@ =~= seq!['0']);
        assert("M"@ =~= seq!['M']);
        assert("0"@[0] != "M"@[0]);
        reveal_strlit("1");
        assert("1"@ =~= seq!['1']);
        assert("1"@[0] != "M"@[0]);
        reveal_strlit("D");
        assert("D"@ =~= seq!['D']);
        assert("D"@[0] != "M"@[0]);
        reveal_strlit("A");
        assert("A"@ =~= seq!['A']);
        assert("A"@[0] != "M"@[0]);
        reveal_strlit("-1");
    }
    assert(comp_code("!M"@) == Some("1110001"@)) by {
        reveal_strlit("!M");
        reveal_strlit("-1");
        assert("-1"@ =~= seq!['-', '1']);
        assert("!M"@ =~= seq!['!', 'M']);
        assert("-1"@[0] != "!M"@[0]);
        reveal_strlit("!D");
        assert("!D"@ =~= seq!['!', 'D']);
        assert("!D"@[1] != "!M"@[1]);
        reveal_strlit("!A");
        assert("!A"@ =~= seq!['!', 'A']);
        assert("!A"@[1] != "!M"@[1]);
        reveal_strlit("0");
        reveal_strlit("1");
        reveal_strlit("D");
        reveal_strlit("A");
        reveal_strlit("M");
    }
    assert(comp_code("-M"@) == Some("1110011"@)) by {
        reveal_strlit("-M");
        reveal_strlit("-1");
        assert("-1"@ =~= seq!['-', '1']);
        assert("-M"@ =~= seq!['-', 'M']);
        assert("-1"@[1] != "-M"@[1]);
        reveal_strlit("!D");
        assert("!D"@ =~= seq!['!', 'D']);
        assert("!D"@[0] != "-M"@[0]);
        reveal_strlit("!A");
        assert("!A"@ =~= seq!['!', 'A']);
        assert("!A"@[0] != "-M"@[0]);
        reveal_strlit("!M");
        assert("!M"@ =~= seq!['!', 'M']);
        assert("!M"@[0] != "-M"@[0]);
        reveal_strlit("-D");
        assert("-D"@ =~= seq!['-', 'D']);
        assert("-D"@[1] != "-M"@[1]);
        reveal_strlit("-A");
        assert("-A"@ =~= seq!['-', 'A']);
        assert("-A"@[1] != "-M"@[1]);
        reveal_strlit("0");
        reveal_strlit("1");
        reveal_strlit("D");
        reveal_strlit("A");
        reveal_strlit("M");
    }
    assert(comp_code("M+1"@) == Some("1110111"@)) by {
        reveal_strlit("M+1");
        reveal_strlit("D+1");
        assert("D+1"@ =~= seq!['D', '+', '1']);
        assert("M+1"@ =~= seq!['M', '+', '1']);
        assert("D+1"@[0] != "M+1"@[0]);
        reveal_strlit("A+1");
        assert("A+1"@ =~= seq!['A', '+', '1']);
        assert("A+1"@[0] != "M+1"@[0]);
        reveal_strlit("0");
        reveal_strlit("1");
        reveal_strlit("-1");
        reveal_strlit("D");
        reveal_strlit("A");
        reveal_strlit("M");
        reveal_strlit("!D");
        reveal_strlit("!A");
        reveal_strlit("!M");
        reveal_strlit("-D");
        reveal_strlit("-A");
        reveal_strlit("-M");
    }
    assert(comp_code("M-1"@) == Some("1110010"@)) by {
        reveal_strlit("M-1");
        reveal_strlit("D+1");
        assert("D+1"@ =~= seq!['D', '+', '1']);
        assert("M-1"@ =~= seq!['M', '-', '1']);
        assert("D+1"@[0] != "M-1"@[0]);
        reveal_strlit("A+1");
        assert("A+1"@ =~= seq!['A', '+', '1']);
        assert("A+1"@[0] != "M-1"@[0]);
        reveal_strlit("M+1");
        assert("M+1"@ =~= seq!['M', '+', '1']);
        assert("M+1"@[1] != "M-1"@[1]);
        reveal_strlit("D-1");
        assert("D-1"@ =~= seq!['D', '-', '1']);
        assert("D-1"@[0] != "M-1"@[0]);
        reveal_strlit("A-1");
        assert("A-1"@ =~= seq!['A', '-', '1']);
        assert("A-1"@[0] != "M-1"@[0]);
        reveal_strlit("0");
        reveal_strlit("1");
        reveal_strlit("-1");
        reveal_strlit("D");
        reveal_strlit("A");
        reveal_strlit("M");
        reveal_strlit("!D");
        reveal_strlit("!A");
        reveal_strlit("!M");
        reveal_strlit("-D");
        reveal_strlit("-A");
        reveal_strlit("-M");
    }
    assert(comp_code("D+M"@) == Some("1000010"@)) by {
        reveal_strlit("D+M");
        reveal_strlit("D+1");
        assert("D+1"@ =~= seq!['D', '+', '1']);
        assert("D+M"@ =~= seq!['D', '+', 'M']);
        assert("D+1"@[2] != "D+M"@[2]);
        reveal_strlit("A+1");
        assert("A+1"@ =~= seq!['A', '+', '1']);
        assert("A+1"@[0] != "D+M"@[0]);
        reveal_strlit("M+1");
        assert("M+1"@ =~= seq!['M', '+', '1']);
        assert("M+1"@[0] != "D+M"@[0]);
        reveal_strlit("D-1");
        assert("D-1"@ =~= seq!['D', '-', '1']);
        assert("D-1"@[1] != "D+M"@[1]);
        reveal_strlit("A-1");
        assert("A-1"@ =~= seq!['A', '-', '1']);
        assert("A-1"@[0] != "D+M"@[0]);
        reveal_strlit("M-1");
        assert("M-1"@ =~= seq!['M', '-', '1']);
        assert("M-1"@[0] != "D+M"@[0]);
        reveal_strlit("D+A");
        assert("D+A"@ =~= seq!['D', '+', 'A']);
        assert("D+A"@[2] != "D+M"@[2]);
        reveal_strlit("0");
        reveal_strlit("1");
        reveal_strlit("-1");
        reveal_strlit("D");
        reveal_strlit("A");
        reveal_strlit("M");
        reveal_strlit("!D");
        reveal_strlit("!A");
        reveal_strlit("!M");
        reveal_strlit("-D");
        reveal_strlit("-A");
        reveal_strlit("-M");
    }
    assert(comp_code("D-M"@) == Some("1010011"@)) by {
        reveal_strlit("D-M");
        reveal_strlit("D+1");
        assert("D+1"@ =~= seq!['D', '+', '1']);
        assert("D-M"@ =~= seq!['D', '-', 'M']);
        assert("D+1"@[1] != "D-M"@[1]);
        reveal_strlit("A+1");
        assert("A+1"@ =~= seq!['A', '+', '1']);
        assert("A+1"@[0] != "D-M"@[0]);
        reveal_strlit("M+1");
        assert("M+1"@ =~= seq!['M', '+', '1']);
        assert("M+1"@[0] != "D-M"@[0]);
        reveal_strlit("D-1");
        assert("D-1"@ =~= seq!['D', '-', '1']);
        assert("D-1"@[2] != "D-M"@[2]);
        reveal_strlit("A-1");
        assert("A-1"@ =~= seq!['A', '-', '1']);
        assert("A-1"@[0] != "D-M"@[0]);
        reveal_strlit("M-1");
        assert("M-1"@ =~= seq!['M', '-', '1']);
        assert("M-1"@[0] != "D-M"@[0]);
        reveal_strlit("D+A");
        assert("D+A"@ =~= seq!['D', '+', 'A']);
        assert("D+A"@[1] != "D-M"@[1]);
        reveal_strlit("D+M");
        assert("D+M"@ =~= seq!['D', '+', 'M']);
        assert("D+M"@[1] != "D-M"@[1]);
        reveal_strlit("D-A");
        assert("D-A"@ =~= seq!['D', '-', 'A']);
        assert("D-A"@[2] != "D-M"@[2]);
        reveal_strlit("0");
        reveal_strlit("1");
        reveal_strlit("-1");
        reveal_strlit("D");
        reveal_strlit("A");
        reveal_strlit("M");
        reveal_strlit("!D");
        reveal_strlit("!A");
        reveal_strlit("!M");
        reveal_strlit("-D");
        reveal_strlit("-A");
        reveal_strlit("-M");
    }
    assert(comp_code("M-D"@) == Some("1000111"@)) by {
        reveal_strlit("M-D");
        reveal_strlit("D+1");
        assert("D+1"@ =~= seq!['D', '+', '1']);
        assert("M-D"@ =~= seq!['M', '-', 'D']);
        assert("D+1"@[0] != "M-D"@[0]);
        reveal_strlit("A+1");
        assert("A+1"@ =~= seq!['A', '+', '1']);
        assert("A+1"@[0] != "M-D"@[0]);
        reveal_strlit("M+1");
        assert("M+1"@ =~= seq!['M', '+', '1']);
        assert("M+1"@[1] != "M-D"@[1]);
        reveal_strlit("D-1");
        assert("D-1"@ =~= seq!['D', '-', '1']);
        assert("D-1"@[0] != "M-D"@[0]);
        reveal_strlit("A-1");
        assert("A-1"@ =~= seq!['A', '-', '1']);
        assert("A-1"@[0] != "M-D"@[0]);
        reveal_strlit("M-1");
        assert("M-1"@ =~= seq!['M', '-', '1']);
        assert("M-1"@[2] != "M-D"@[2]);
        reveal_strlit("D+A");
        assert("D+A"@ =~= seq!['D', '+', 'A']);
        assert("D+A"@[0] != "M-D"@[0]);
        reveal_strlit("D+M");
        assert("D+M"@ =~= seq!['D', '+', 'M']);
        assert("D+M"@[0] != "M-D"@[0]);
        reveal_strlit("D-A");
        assert("D-A"@ =~= seq!['D', '-', 'A']);
        assert("D-A"@[0] != "M-D"@[0]);
        reveal_strlit("D-M");
        assert("D-M"@ =~= seq!['D', '-', 'M']);
        assert("D-M"@[0] != "M-D"@[0]);
        reveal_strlit("A-D");
        assert("A-D"@ =~= seq!['A', '-', 'D']);
        assert("A-D"@[0] != "M-D"@[0]);
        reveal_strlit("0");
        reveal_strlit("1");
        reveal_strlit("-1");
        reveal_strlit("D");
        reveal_strlit("A");
        reveal_strlit("M");
        reveal_strlit("!D");
        reveal_strlit("!A");
        reveal_strlit("!M");
        reveal_strlit("-D");
        reveal_strlit("-A");
        reveal_strlit("-M");
    }
    assert(comp_code("D&M"@) == Some("1000000"@)) by {
        reveal_strlit("D&M");
        reveal_strlit("D+1");
        assert("D+1"@ =~= seq!['D', '+', '1']);
        assert("D&M"@ =~= seq!['D', '&', 'M']);
        assert("D+1"@[1] != "D&M"@[1]);
        reveal_strlit("A+1");
        assert("A+1"@ =~= seq!['A', '+', '1']);
        assert("A+1"@[0] != "D&M"@[0]);
        reveal_strlit("M+1");
        assert("M+1"@ =~= seq!['M', '+', '1']);
        assert("M+1"@[0] != "D&M"@[0]);
        reveal_strlit("D-1");
        assert("D-1"@ =~= seq!['D', '-', '1']);
        assert("D-1"@[1] != "D&M"@[1]);
        reveal_strlit("A-1");
        assert("A-1"@ =~= seq!['A', '-', '1']);
        assert("A-1"@[0] != "D&M"@[0]);
        reveal_strlit("M-1");
        assert("M-1"@ =~= seq!['M', '-', '1']);
        assert("M-1"@[0] != "D&M"@[0]);
        reveal_strlit("D+A");
        assert("D+A"@ =~= seq!['D', '+', 'A']);
        assert("D+A"@[1] != "D&M"@[1]);
        reveal_strlit("D+M");
        assert("D+M"@ =~= seq!['D', '+', 'M']);
        assert("D+M"@[1] != "D&M"@[1]);
        reveal_strlit("D-A");
        assert("D-A"@ =~= seq!['D', '-', 'A']);
        assert("D-A"@[1] != "D&M"@[1]);
        reveal_strlit("D-M");
        assert("D-M"@ =~= seq!['D', '-', 'M']);
        assert("D-M"@[1] != "D&M"@[1]);
        reveal_strlit("A-D");
        assert("A-D"@ =~= seq!['A', '-', 'D']);
        assert("A-D"@[0] != "D&M"@[0]);
        reveal_strlit("M-D");
        assert("M-D"@ =~= seq!['M', '-', 'D']);
        assert("M-D"@[0] != "D&M"@[0]);
        reveal_strlit("D&A");
        assert("D&A"@ =~= seq!['D', '&', 'A']);
        assert("D&A"@[2] != "D&M"@[2]);
        reveal_strlit("0");
        reveal_strlit("1");
        reveal_strlit("-1");
        reveal_strlit("D");
        reveal_strlit("A");
        reveal_strlit("M");
        reveal_strlit("!D");
        reveal_strlit("!A");
        reveal_strlit("!M");
        reveal_strlit("-D");
        reveal_strlit("-A");
        reveal_strlit("-M");
    }
    assert(comp_code("D|M"@) == Some("1010101"@)) by {
        reveal_strlit("D|M");
        reveal_strlit("D+1");
        assert("D+1"@ =~= seq!['D', '+', '1']);
        assert("D|M"@ =~= seq!['D', '|', 'M']);
        assert("D+1"@[1] != "D|M"@[1]);
        reveal_strlit("A+1");
        assert("A+1"@ =~= seq!['A', '+', '1']);
        assert("A+1"@[0] != "D|M"@[0]);
        reveal_strlit("M+1");
        assert("M+1"@ =~= seq!['M', '+', '1']);
        assert("M+1"@[0] != "D|M"@[0]);
        reveal_strlit("D-1");
        assert("D-1"@ =~= seq!['D', '-', '1']);
        assert("D-1"@[1] != "D|M"@[1]);
        reveal_strlit("A-1");
        assert("A-1"@ =~= seq!['A', '-', '1']);
        assert("A-1"@[0] != "D|M"@[0]);
        reveal_strlit("M-1");
        assert("M-1"@ =~= seq!['M', '-', '1']);
        assert("M-1"@[0] != "D|M"@[0]);
        reveal_strlit("D+A");
        assert("D+A"@ =~= seq!['D', '+', 'A']);
        assert("D+A"@[1] != "D|M"@[1]);
        reveal_strlit("D+M");
        assert("D+M"@ =~= seq!['D', '+', 'M']);
        assert("D+M"@[1] != "D|M"@[1]);
        reveal_strlit("D-A");
        assert("D-A"@ =~= seq!['D', '-', 'A']);
        assert("D-A"@[1] != "D|M"@[1]);
        reveal_strlit("D-M");
        assert("D-M"@ =~= seq!['D', '-', 'M']);
        assert("D-M"@[1] != "D|M"@[1]);
        reveal_strlit("A-D");
        assert("A-D"@ =~= seq!['A', '-', 'D']);
        assert("A-D"@[0] != "D|M"@[0]);
        reveal_strlit("M-D");
        assert("M-D"@ =~= seq!['M', '-', 'D']);
        assert("M-D"@[0] != "D|M"@[0]);
        reveal_strlit("D&A");
        assert("D&A"@ =~= seq!['D', '&', 'A']);
        assert("D&A"@[1] != "D|M"@[1]);
        reveal_strlit("D&M");
        assert("D&M"@ =~= seq!['D', '&', 'M']);
        assert("D&M"@[1] != "D|M"@[1]);
        reveal_strlit("D|A");
        assert("D|A"@ =~= seq!['D', '|', 'A']);
        assert("D|A"@[2] != "D|M"@[2]);
        reveal_strlit("0");
        reveal_strlit("1");
        reveal_strlit("-1");
        reveal_strlit("D");
        reveal_strlit("A");
        reveal_strlit("M");
        reveal_strlit("!D");
        reveal_strlit("!A");
        reveal_strlit("!M");
        reveal_strlit("-D");
        reveal_strlit("-A");
        reveal_strlit("-M");
    }
}

/// The high bit of a computation field selects the operand source: it is 1 exactly when the
/// mnemonic names the alternate register. Each operation on the primary register has an
/// alternate form, whose field differs from its own in the high bit alone.
#[verifier::rlimit(60)]
#[verifier::spinoff_prover]
pub proof fn lemma_comp_operand_select(m: Seq<char>)
    requires
        comp_code(m) is Some,
    ensures
        comp_code(m)->0.len() == 7,
        comp_code(m)->0[0] == '1' <==> m.contains('M'),
        m.contains('A') ==> comp_code(with_alternate(m)) is Some
            && comp_code(with_alternate(m))->0[0] == '1'
            && comp_code(with_alternate(m))->0.subrange(1, 7) == comp_code(m)->0.subrange(1, 7),
{
    lemma_comp_alternates();
    if m == "0"@ {
        reveal_strlit("0");
        reveal_strlit("0101010");
        assert(comp_code(m)->0 =~= "0101010"@);
        assert(!m.contains('A'));
    } else if m == "1"@ {
        reveal_strlit("1");
        reveal_strlit("0111111");
        assert(comp_code(m)->0 =~= "0111111"@);
        assert(!m.contains('A'));
    } else if m == "-1"@ {
        reveal_strlit("-1");
        reveal_strlit("0111010");
        assert(comp_code(m)->0 =~= "0111010"@);
        assert(!m.contains('A'));
    } else if m == "D"@ {
        reveal_strlit("D");
        reveal_strlit("0001100");
        assert(comp_code(m)->0 =~= "0001100"@);
        assert(!m.contains('A'));
    } else if m == "A"@ {
        reveal_strlit("A");
        reveal_strlit("0110000");
        reveal_strlit("M");
        reveal_strlit("1110000");
        assert(with_alternate(m) =~= "M"@);
        assert(comp_code(m)->0 =~= "0110000"@);
        assert(comp_code(with_alternate(m)) == Some("1110000"@));
        assert(comp_code(with_alternate(m))->0.subrange(1, 7) =~= comp_code(m)->0.subrange(1, 7));
    } else if m == "M"@ {
        reveal_strlit("M");
        reveal_strlit("1110000");
        assert(m[0] == 'M');
        assert(comp_code(m)->0 =~= "1110000"@);
        assert(!m.contains('A'));
    } else if m == "!D"@ {
        reveal_strlit("!D");
        reveal_strlit("0001101");
        assert(comp_code(m)->0 =~= "0001101"@);
        assert(!m.contains('A'));
    } else if m == "!A"@ {
        reveal_strlit("!A");
        reveal_strlit("0110001");
        reveal_strlit("!M");
        reveal_strlit("1110001");
        assert(with_alternate(m) =~= "!M"@);
        assert(comp_code(m)->0 =~= "0110001"@);
        assert(comp_code(with_alternate(m)) == Some("1110001"@));
        assert(comp_code(with_alternate(m))->0.subrange(1, 7) =~= comp_code(m)->0.subrange(1, 7));
    } else if m == "!M"@ {
        reveal_strlit("!M");
        reveal_strlit("1110001");
        assert(m[1] == 'M');
        assert(comp_code(m)->0 =~= "1110001"@);
        assert(!m.contains('A'));
    } else if m == "-D"@ {
        reveal_strlit("-D");
        reveal_strlit("0001111");
        assert(comp_code(m)->0 =~= "0001111"@);
        assert(!m.contains('A'));
    } else if m == "-A"@ {
        reveal_strlit("-A");
        reveal_strlit("0110011");
        reveal_strlit("-M");
        reveal_strlit("1110011");
        assert(with_alternate(m) =~= "-M"@);
        assert(comp_code(m)->0 =~= "0110011"@);
        assert(comp_code(with_alternate(m)) == Some("1110011"@));
        assert(comp_code(with_alternate(m))->0.subrange(1, 7) =~= comp_code(m)->0.subrange(1, 7));
    } else if m == "-M"@ {
        reveal_strlit("-M");
        reveal_strlit("1110011");
        assert(m[1] == 'M');
        assert(comp_code(m)->0 =~= "1110011"@);
        assert(!m.contains('A'));
    } else if m == "D+1"@ {
        reveal_strlit("D+1");
        reveal_strlit("0011111");
        assert(comp_code(m)->0 =~= "0011111"@);
        assert(!m.contains('A'));
    } else if m == "A+1"@ {
        reveal_strlit("A+1");
        reveal_strlit("0110111");
        reveal_strlit("M+1");
        reveal_strlit("1110111");
        assert(with_alternate(m) =~= "M+1"@);
        assert(comp_code(m)->0 =~= "0110111"@);
        assert(comp_code(with_alternate(m)) == Some("1110111"@));
        assert(comp_code(with_alternate(m))->0.subrange(1, 7) =~= comp_code(m)->0.subrange(1, 7));
    } else if m == "M+1"@ {
        reveal_strlit("M+1");
        reveal_strlit("1110111");
        assert(m[0] == 'M');
        assert(comp_code(m)->0 =~= "1110111"@);
        assert(!m.contains('A'));
    } else if m == "D-1"@ {
        reveal_strlit("D-1");
        reveal_strlit("0001110");
        assert(comp_code(m)->0 =~= "0001110"@);
        assert(!m.contains('A'));
    } else if m == "A-1"@ {
        reveal_strlit("A-1");
        reveal_strlit("0110010");
        reveal_strlit("M-1");
        reveal_strlit("1110010");
        assert(with_alternate(m) =~= "M-1"@);
        assert(comp_code(m)->0 =~= "0110010"@);
        assert(comp_code(with_alternate(m)) == Some("1110010"@));
        assert(comp_code(with_alternate(m))->0.subrange(1, 7) =~= comp_code(m)->0.subrange(1, 7));
    } else if m == "M-1"@ {
        reveal_strlit("M-1");
        reveal_strlit("1110010");
        assert(m[0] == 'M');
        assert(comp_code(m)->0 =~= "1110010"@);
        assert(!m.contains('A'));
    } else if m == "D+A"@ {
        reveal_strlit("D+A");
        reveal_strlit("0000010");
        reveal_strlit("D+M");
        reveal_strlit("1000010");
        assert(with_alternate(m) =~= "D+M"@);
        assert(comp_code(m)->0 =~= "0000010"@);
        assert(comp_code(with_alternate(m)) == Some("1000010"@));
        assert(comp_code(with_alternate(m))->0.subrange(1, 7) =~= comp_code(m)->0.subrange(1, 7));
    } else if m == "D+M"@ {
        reveal_strlit("D+M");
        reveal_strlit("1000010");
        assert(m[2] == 'M');
        assert(comp_code(m)->0 =~= "1000010"@);
        assert(!m.contains('A'));
    } else if m == "D-A"@ {
        reveal_strlit("D-A");
        reveal_strlit("0010011");
        reveal_strlit("D-M");
        reveal_strlit("1010011");
        assert(with_alternate(m) =~= "D-M"@);
        assert(comp_code(m)->0 =~= "0010011"@);
        assert(comp_code(with_alternate(m)) == Some("1010011"@));
        assert(comp_code(with_alternate(m))->0.subrange(1, 7) =~= comp_code(m)->0.subrange(1, 7));
    } else if m == "D-M"@ {
        reveal_strlit("D-M");
        reveal_strlit("1010011");
        assert(m[2] == 'M');
        assert(comp_code(m)->0 =~= "1010011"@);
        assert(!m.contains('A'));
    } else if m == "A-D"@ {
        reveal_strlit("A-D");
        reveal_strlit("0000111");
        reveal_strlit("M-D");
        reveal_strlit("1000111");
        assert(with_alternate(m) =~= "M-D"@);
        assert(comp_code(m)->0 =~= "0000111"@);
        assert(comp_code(with_alternate(m)) == Some("1000111"@));
        assert(comp_code(with_alternate(m))->0.subrange(1, 7) =~= comp_code(m)->0.subrange(1, 7));
    } else if m == "M-D"@ {
        reveal_strlit("M-D");
        reveal_strlit("1000111");
        assert(m[0] == 'M');
        assert(comp_code(m)->0 =~= "1000111"@);
        assert(!m.contains('A'));
    } else if m == "D&A"@ {
        reveal_strlit("D&A");
        reveal_strlit("0000000");
        reveal_strlit("D&M");
        reveal_strlit("1000000");
        assert(with_alternate(m) =~= "D&M"@);
        assert(comp_code(m)->0 =~= "0000000"@);
        assert(comp_code(with_alternate(m)) == Some("1000000"@));
        assert(comp_code(with_alternate(m))->0.subrange(1, 7) =~= comp_code(m)->0.subrange(1, 7));
    } else if m == "D&M"@ {
        reveal_strlit("D&M");
        reveal_strlit("1000000");
        assert(m[2] == 'M');
        assert(comp_code(m)->0 =~= "1000000"@);
        assert(!m.contains('A'));
    } else if m == "D|A"@ {
        reveal_strlit("D|A");
        reveal_strlit("0010101");
        reveal_strlit("D|M");
        reveal_strlit("1010101");
        assert(with_alternate(m) =~= "D|M"@);
        assert(comp_code(m)->0 =~= "0010101"@);
        assert(comp_code(with_alternate(m)) == Some("1010101"@));
        assert(comp_code(with_alternate(m))->0.subrange(1, 7) =~= comp_code(m)->0.subrange(1, 7));
    } else if m == "D|M"@ {
        reveal_strlit("D|M");
        reveal_strlit("1010101");
        assert(m[2] == 'M');
        assert(comp_code(m)->0 =~= "1010101"@);
        assert(!m.contains('A'));
    }
}

/// The destination field depends on which letters occur, not on their order: two mnemonics
/// that hold the same letters the same number of times encode alike.
pub proof fn lemma_dest_order_free(m1: Seq<char>, m2: Seq<char>)
    requires
        m1.to_multiset() == m2.to_multiset(),
    ensures
        dest_code(m1) == dest_code(m2),
{
    m1.to_multiset_ensures();
    m2.to_multiset_ensures();
    assert(m1.contains('A') <==> m1.to_multiset().count('A') > 0);
    assert(m2.contains('A') <==> m2.to_multiset().count('A') > 0);
    assert(m1.contains('A') == m2.contains('A'));
    assert(m1.contains('D') <==> m1.to_multiset().count('D') > 0);
    assert(m2.contains('D') <==> m2.to_multiset().count('D') > 0);
    assert(m1.contains('D') == m2.contains('D'));
    assert(m1.contains('M') <==> m1.to_multiset().count('M') > 0);
    assert(m2.contains('M') <==> m2.to_multiset().count('M') > 0);
    assert(m1.contains('M') == m2.contains('M'));
}

/// Whether two strings hold the same characters.
pub fn str_eq(a: &str, b: &str) -> (r: bool)
    ensures
        r == (a@ == b@),
{
    let n = a.unicode_len();
    if n != b.unicode_len() {
        return false;
    }
    let mut i: usize = 0;
    while i < n
        invariant
            n == a@.len(),
            n == b@.len(),
            i <= n,
            forall|j: int| 0 <= j < i ==> a@[j] == b@[j],
        decreases n - i,
    {
        if a.get_char(i) != b.get_char(i) {
            return false;
        }
        i = i + 1;
    }
    assert(a@ =~= b@);
    true
}

/// Whether `c` occurs in `s`.
pub fn str_contains(s: &str, c: char) -> (r: bool)
    ensures
        r == s@.contains(c),
{
    let n = s.unicode_len();
    let mut i: usize = 0;
    while i < n
        invariant
            n == s@.len(),
            i <= n,
            forall|j: int| 0 <= j < i ==> s@[j] != c,
        decreases n - i,
    {
        if s.get_char(i) == c {
            return true;
        }
        i = i + 1;
    }
    false
}

/// Appends the digit of a flag.
fn push_bit(out: &mut String, b: bool)
    ensures
        final(out)@ == old(out)@ + bit_of(b),
{
    if b {
        out.append("1");
    } else {
        out.append("0");
    }
}

/// The instruction encoder: one function for each field of a computation word.
pub struct Code {}

impl Code {
    /// Encodes a destination mnemonic: every combination of letters is accepted.
    pub fn dest(v: &str) -> (r: String)
        ensures
            r@ == dest_code(v@),
    {
        let mut out = String::new();
        push_bit(&mut out, str_contains(v, 'A'));
        push_bit(&mut out, str_contains(v, 'D'));
        push_bit(&mut out, str_contains(v, 'M'));
        out
    }

    /// Encodes a computation mnemonic by the architecture's table.
    pub fn comp(v: &str) -> (r: Result<String, AsmError>)
        ensures
            r matches Ok(s) ==> comp_code(v@) == Some(s@),
            r is Err <==> comp_code(v@) is None,
            r matches Err(e) ==> e == AsmError::UnknownComp,
    {
        if str_eq(v, "0") {
            Ok(String::from_str("0101010"))
        } else if str_eq(v, "1") {
            Ok(String::from_str("0111111"))
        } else if str_eq(v, "-1") {
            Ok(String::from_str("0111010"))
        } else if str_eq(v, "D") {
            Ok(String::from_str("0001100"))
        } else if str_eq(v, "A") {
            Ok(String::from_str("0110000"))
        } else if str_eq(v, "M") {
            Ok(String::from_str("1110000"))
        } else if str_eq(v, "!D") {
            Ok(String::from_str("0001101"))
        } else if str_eq(v, "!A") {
            Ok(String::from_str("0110001"))
        } else if str_eq(v, "!M") {
            Ok(String::from_str("1110001"))
        } else if str_eq(v, "-D") {
            Ok(String::from_str("0001111"))
        } else if str_eq(v, "-A") {
            Ok(String::from_str("0110011"))
        } else if str_eq(v, "-M") {
            Ok(String::from_str("1110011"))
        } else if str_eq(v, "D+1") {
            Ok(String::from_str("0011111"))
        } else if str_eq(v, "A+1") {
            Ok(String::from_str("0110111"))
        } else if str_eq(v, "M+1") {
            Ok(String::from_str("1110111"))
        } else if str_eq(v, "D-1") {
            Ok(String::from_str("0001110"))
        } else if str_eq(v, "A-1") {
            Ok(String::from_str("0110010"))
        } else if str_eq(v, "M-1") {
            Ok(String::from_str("1110010"))
        } else if str_eq(v, "D+A") {
            Ok(String::from_str("0000010"))
        } else if str_eq(v, "D+M") {
            Ok(String::from_str("1000010"))
        } else if str_eq(v, "D-A") {
            Ok(String::from_str("0010011"))
        } else if str_eq(v, "D-M") {
            Ok(String::from_str("1010011"))
        } else if str_eq(v, "A-D") {
            Ok(String::from_str("0000111"))
        } else if str_eq(v, "M-D") {
            Ok(String::from_str("1000111"))
        } else if str_eq(v, "D&A") {
            Ok(String::from_str("0000000"))
        } else if str_eq(v, "D&M") {
            Ok(String::from_str("1000000"))
        } else if str_eq(v, "D|A") {
            Ok(String::from_str("0010101"))
        } else if str_eq(v, "D|M") {
            Ok(String::from_str("1010101"))
        } else {
            Err(AsmError::UnknownComp)
        }
    }

    /// Encodes a jump mnemonic; the empty mnemonic means no jump.
    pub fn jump(v: &str) -> (r: Result<String, AsmError>)
        ensures
            r matches Ok(s) ==> jump_code(v@) == Some(s@),
            r is Err <==> jump_code(v@) is None,
            r matches Err(e) ==> e == AsmError::UnknownJump,
    {
        if str_eq(v, "") {
            Ok(String::from_str("000"))
        } else if str_eq(v, "JGT") {
            Ok(String::from_str("001"))
        } else if str_eq(v, "JEQ") {
            Ok(String::from_str("010"))
        } else if str_eq(v, "JGE") {
            Ok(String::from_str("011"))
        } else if str_eq(v, "JLT") {
            Ok(String::from_str("100"))
        } else if str_eq(v, "JNE") {
            Ok(String::from_str("101"))
        } else if str_eq(v, "JLE") {
            Ok(String::from_str("110"))
        } else if str_eq(v, "JMP") {
            Ok(String::from_str("111"))
        } else {
            Err(AsmError::UnknownJump)
        }
    }
}

} // verus!
