use vstd::prelude::*;
use vstd::string::*;

use crate::error::AsmError;

verus! {

/// The three shapes an instruction line can take.
#[derive(Debug, Clone, Copy, PartialEq, Eq, Structural)]
pub enum InstructionType {
    /// `@value`: loads a literal or a symbol's address.
    A,
    /// `dest=comp;jump`: a computation.
    C,
    /// `(name)`: binds a label; emits no word.
    L,
}

/// Characters with the Unicode `White_Space` property.
pub open spec fn is_blank_char(c: char) -> bool {
    ('\u{9}' <= c && c <= '\u{d}') || c == ' ' || c == '\u{85}' || c == '\u{a0}' || c == '\u{1680}'
        || ('\u{2000}' <= c && c <= '\u{200a}') || c == '\u{2028}' || c == '\u{2029}'
        || c == '\u{202f}' || c == '\u{205f}' || c == '\u{3000}'
}

/// Lines that carry no instruction: blank ones and `//` comments.
pub open spec fn is_skipped(l: Seq<char>) -> bool {
    (forall|i: int| 0 <= i < l.len() ==> is_blank_char(#[trigger] l[i])) || (l.len() >= 2 && l[0]
        == '/' && l[1] == '/')
}

/// The shape of an instruction line; `None` when it has none of the three.
pub open spec fn kind_of(l: Seq<char>) -> Option<InstructionType> {
    if l.len() > 0 && l[0] == '@' {
        Some(InstructionType::A)
    } else if l.len() >= 2 && l[0] == '(' && l[l.len() - 1] == ')' {
        Some(InstructionType::L)
    } else if l.contains(';') || l.contains('=') {
        Some(InstructionType::C)
    } else {
        None
    }
}

/// The operand of an address line or the name of a label line, delimiters stripped.
pub open spec fn symbol_of(l: Seq<char>) -> Seq<char> {
    if kind_of(l) == Some(InstructionType::A) {
        l.subrange(1, l.len() as int)
    } else {
        l.subrange(1, l.len() - 1)
    }
}

/// `i` is the position of the first `c` in `s`, or the length of `s` where there is none.
pub open spec fn is_first_index(s: Seq<char>, c: char, i: int) -> bool {
    0 <= i <= s.len() && (i == s.len() || s[i] == c) && forall|j: int| 0 <= j < i ==> s[j] != c
}

/// The position of the first `c` in `s`, or the length of `s`.
pub open spec fn first_index(s: Seq<char>, c: char) -> int {
    choose|i: int| is_first_index(s, c, i)
}

/// What follows the first `=`, or the whole line where there is none.
pub open spec fn after_dest(l: Seq<char>) -> Seq<char> {
    let e = first_index(l, '=');
    if e < l.len() {
        l.subrange(e + 1, l.len() as int)
    } else {
        l
    }
}

/// The destination mnemonic: what precedes the first `=`, or empty.
pub open spec fn dest_of(l: Seq<char>) -> Seq<char> {
    let e = first_index(l, '=');
    if e < l.len() {
        l.subrange(0, e)
    } else {
        Seq::empty()
    }
}

/// The computation mnemonic: after the destination, up to the first `;`.
pub open spec fn comp_of(l: Seq<char>) -> Seq<char> {
    let r = after_dest(l);
    r.subrange(0, first_index(r, ';'))
}

/// The jump mnemonic: what follows the `;` after the destination, or empty.
pub open spec fn jump_of(l: Seq<char>) -> Seq<char> {
    let r = after_dest(l);
    let s = first_index(r, ';');
    if s < r.len() {
        r.subrange(s + 1, r.len() as int)
    } else {
        Seq::empty()
    }
}

proof fn lemma_first_index(s: Seq<char>, c: char, i: int)
    requires
        is_first_index(s, c, i),
    ensures
        first_index(s, c) == i,
{
    let k = first_index(s, c);
    assert(is_first_index(s, c, k));
    if k < i {
        assert(s[k] != c);
    } else if i < k {
        assert(s[i] != c);
    }
}

/// Whether `c` has the Unicode `White_Space` property.
pub fn is_whitespace(c: char) -> (r: bool)
    ensures
        r == is_blank_char(c),
{
    ('\u{9}' <= c && c <= '\u{d}') || c == ' ' || c == '\u{85}' || c == '\u{a0}' || c == '\u{1680}'
        || ('\u{2000}' <= c && c <= '\u{200a}') || c == '\u{2028}' || c == '\u{2029}'
        || c == '\u{202f}' || c == '\u{205f}' || c == '\u{3000}'
}

/// Whether a line is blank or a comment.
pub fn skipped(line: &str) -> (r: bool)
    ensures
        r == is_skipped(line@),
{
    let n = line.unicode_len();
    if n >= 2 && line.get_char(0) == '/' && line.get_char(1) == '/' {
        return true;
    }
    assert(!(line@.len() >= 2 && line@[0] == '/' && line@[1] == '/'));
    let mut i: usize = 0;
    while i < n
        invariant
            n == line@.len(),
            i <= n,
            !(line@.len() >= 2 && line@[0] == '/' && line@[1] == '/'),
            forall|j: int| 0 <= j < i ==> is_blank_char(#[trigger] line@[j]),
        decreases n - i,
    {
        if !is_whitespace(line.get_char(i)) {
            assert(!is_blank_char(line@[i as int]));
            return false;
        }
        i = i + 1;
    }
    true
}

/// The position of the first `c` in `s`, or its length.
pub fn find_char(s: &str, c: char) -> (r: usize)
    ensures
        r == first_index(s@, c),
        is_first_index(s@, c, r as int),
{
    let n = s.unicode_len();
    let mut i: usize = 0;
    while i < n
        invariant
            n == s@.len(),
            i <= n,
            forall|j: int| 0 <= j < i ==> s@[j] != c,
        decreases n - i,
    {
        if s.get_char(i) == c {
            proof { lemma_first_index(s@, c, i as int); }
            return i;
        }
        i = i + 1;
    }
    proof { lemma_first_index(s@, c, n as int); }
    n
}

/// The shape of an instruction line.
pub fn classify(line: &str) -> (r: Result<InstructionType, AsmError>)
    ensures
        match kind_of(line@) {
            Some(k) => r == Ok::<InstructionType, AsmError>(k),
            None => r == Err::<InstructionType, AsmError>(AsmError::MalformedLine),
        },
{
    let n = line.unicode_len();
    if n > 0 && line.get_char(0) == '@' {
        Ok(InstructionType::A)
    } else if n >= 2 && line.get_char(0) == '(' && line.get_char(n - 1) == ')' {
        Ok(InstructionType::L)
    } else {
        let semi = find_char(line, ';');
        let eq = find_char(line, '=');
        if semi < n || eq < n {
            proof {
                if semi < n {
                    assert(line@[semi as int] == ';');
                } else {
                    assert(line@[eq as int] == '=');
                }
            }
            Ok(InstructionType::C)
        } else {
            Err(AsmError::MalformedLine)
        }
    }
}

/// The destination mnemonic of a computation line.
pub fn dest_field(line: &str) -> (r: &str)
    ensures
        r@ == dest_of(line@),
{
    let n = line.unicode_len();
    let e = find_char(line, '=');
    if e < n {
        line.substring_char(0, e)
    } else {
        line.substring_char(0, 0)
    }
}

fn after_dest_field(line: &str) -> (r: &str)
    ensures
        r@ == after_dest(line@),
{
    let n = line.unicode_len();
    let e = find_char(line, '=');
    if e < n {
        line.substring_char(e + 1, n)
    } else {
        line
    }
}

/// The computation mnemonic of a computation line.
pub fn comp_field(line: &str) -> (r: &str)
    ensures
        r@ == comp_of(line@),
{
    let rest = after_dest_field(line);
    let s = find_char(rest, ';');
    rest.substring_char(0, s)
}

/// The jump mnemonic of a computation line.
pub fn jump_field(line: &str) -> (r: &str)
    ensures
        r@ == jump_of(line@),
{
    let rest = after_dest_field(line);
    let n = rest.unicode_len();
    let s = find_char(rest, ';');
    if s < n {
        rest.substring_char(s + 1, n)
    } else {
        rest.substring_char(0, 0)
    }
}

/// The operand of an address line or the name of a label line.
pub fn symbol_field(line: &str) -> (r: String)
    requires
        kind_of(line@) == Some(InstructionType::A) || kind_of(line@) == Some(InstructionType::L),
    ensures
        r@ == symbol_of(line@),
{
    let n = line.unicode_len();
    if line.get_char(0) == '@' {
        String::from_str(line.substring_char(1, n))
    } else {
        String::from_str(line.substring_char(1, n - 1))
    }
}

/// The characters of each line.
pub open spec fn lines_view(v: Seq<String>) -> Seq<Seq<char>> {
    v.map_values(|s: String| s@)
}

/// `j` is the first line at or after `from` that carries an instruction.
pub open spec fn is_next_code_line(ls: Seq<Seq<char>>, from: int, j: int) -> bool {
    from <= j < ls.len() && !is_skipped(ls[j]) && forall|k: int| from <= k < j ==> is_skipped(ls[k])
}

/// A cursor over the lines of a program that steps over blank and comment lines.
pub struct Parser {
    pub lines: Vec<String>,
    pub next: usize,
    pub current_instruction: Option<String>,
}

impl Parser {
    /// The cursor stands within the lines.
    pub open spec fn wf(&self) -> bool {
        self.next <= self.lines@.len()
    }

    /// The characters of each line.
    pub open spec fn lines_seq(&self) -> Seq<Seq<char>> {
        lines_view(self.lines@)
    }

    /// The line the cursor stands on.
    pub open spec fn current(&self) -> Option<Seq<char>> {
        match self.current_instruction {
            Some(s) => Some(s@),
            None => None,
        }
    }

    /// A cursor before the first of `lines`.
    pub fn new(lines: Vec<String>) -> (r: Self)
        ensures
            r.wf(),
            r.lines@ == lines@,
            r.next == 0,
            r.current() is None,
    {
        Parser { lines, next: 0, current_instruction: None }
    }

    /// Whether lines remain that the cursor has not read, comments and blanks included.
    pub fn has_more_lines(&self) -> (r: bool)
        requires
            self.wf(),
        ensures
            r == (self.next < self.lines@.len()),
    {
        self.next < self.lines.len()
    }

    /// Moves to the next line that carries an instruction. Where none is left, every line is
    /// consumed, and the current line is cleared unless no line at all was left.
    pub fn advance(&mut self)
        requires
            old(self).wf(),
        ensures
            final(self).wf(),
            final(self).lines@ == old(self).lines@,
            forall|j: int| #[trigger]
                is_next_code_line(old(self).lines_seq(), old(self).next as int, j) ==> final(self).next
                    == j + 1 && final(self).current() == Some(old(self).lines_seq()[j]),
            (forall|j: int|
                old(self).next <= j < old(self).lines@.len() ==> is_skipped(
                    #[trigger] old(self).lines_seq()[j],
                )) ==> final(self).next == old(self).lines@.len() && final(self).current() == if old(
                self).next < old(self).lines@.len() {
                None
            } else {
                old(self).current()
            },
    {
        let ghost start = self.next as int;
        let ghost ls = self.lines_seq();
        while self.next < self.lines.len()
            invariant
                self.wf(),
                self.lines_seq() == ls,
                ls == old(self).lines_seq(),
                start == old(self).next,
                ls.len() == self.lines@.len(),
                start <= self.next,
                forall|k: int| start <= k < self.next ==> is_skipped(#[trigger] ls[k]),
                self.next > start ==> self.current() is None,
                self.next == start ==> self.current() == old(self).current(),
                self.lines@ == old(self).lines@,
            decreases self.lines@.len() - self.next,
        {
            let i = self.next;
            self.next = i + 1;
            assert(ls[i as int] == self.lines@[i as int]@);
            if skipped(self.lines[i].as_str()) {
                self.current_instruction = None;
            } else {
                self.current_instruction = Some(self.lines[i].clone());
                proof {
                    assert(!is_skipped(ls[i as int]));
                    assert(is_next_code_line(ls, start, i as int));
                    assert forall|j: int| #[trigger] is_next_code_line(ls, start, j) implies j
                        == i by {
                        if j < i {
                            assert(is_skipped(ls[j]));
                        } else if i < j {
                            assert(is_skipped(ls[i as int]));
                        }
                    }
                }
                return;
            }
        }
        proof {
            assert forall|j: int| !#[trigger] is_next_code_line(ls, start, j) by {}
        }
    }

    /// The shape of the current line; `None` before the first.
    pub fn instruction_type(&self) -> (r: Result<Option<InstructionType>, AsmError>)
        ensures
            match self.current() {
                None => r == Ok::<Option<InstructionType>, AsmError>(None),
                Some(l) => match kind_of(l) {
                    Some(k) => r == Ok::<Option<InstructionType>, AsmError>(Some(k)),
                    None => r == Err::<Option<InstructionType>, AsmError>(AsmError::MalformedLine),
                },
            },
    {
        match &self.current_instruction {
            None => Ok(None),
            Some(line) => match classify(line.as_str()) {
                Ok(k) => Ok(Some(k)),
                Err(e) => Err(e),
            },
        }
    }

    /// The operand of an address line or the name of a label line; `None` on a computation
    /// line and before the first line.
    pub fn symbol(&self) -> (r: Result<Option<String>, AsmError>)
        ensures
            match self.current() {
                None => r matches Ok(None),
                Some(l) => match kind_of(l) {
                    Some(InstructionType::C) => r matches Ok(None),
                    Some(_) => r matches Ok(Some(s)) && s@ == symbol_of(l),
                    None => r matches Err(AsmError::MalformedLine),
                },
            },
    {
        match &self.current_instruction {
            None => Ok(None),
            Some(line) => match classify(line.as_str()) {
                Ok(InstructionType::C) => Ok(None),
                Ok(_) => Ok(Some(symbol_field(line.as_str()))),
                Err(e) => Err(e),
            },
        }
    }

    /// The destination mnemonic of a computation line; empty on other lines.
    pub fn dest(&self) -> (r: Result<&str, AsmError>)
        ensures
            match self.current() {
                Some(l) => match kind_of(l) {
                    Some(InstructionType::C) => r matches Ok(s) && s@ == dest_of(l),
                    Some(_) => r matches Ok(s) && s@.len() == 0,
                    None => r matches Err(AsmError::MalformedLine),
                },
                None => r matches Ok(s) && s@.len() == 0,
            },
    {
        match &self.current_instruction {
            None => {
                proof {
                    reveal_strlit("");
                }
                Ok("")
            },
            Some(line) => match classify(line.as_str()) {
                Ok(InstructionType::C) => Ok(dest_field(line.as_str())),
                Ok(_) => Ok(line.as_str().substring_char(0, 0)),
                Err(e) => Err(e),
            },
        }
    }

    /// The computation mnemonic of a computation line; empty on other lines.
    pub fn comp(&self) -> (r: Result<&str, AsmError>)
        ensures
            match self.current() {
                Some(l) => match kind_of(l) {
                    Some(InstructionType::C) => r matches Ok(s) && s@ == comp_of(l),
                    Some(_) => r matches Ok(s) && s@.len() == 0,
                    None => r matches Err(AsmError::MalformedLine),
                },
                None => r matches Ok(s) && s@.len() == 0,
            },
    {
        match &self.current_instruction {
            None => {
                proof {
                    reveal_strlit("");
                }
                Ok("")
            },
            Some(line) => match classify(line.as_str()) {
                Ok(InstructionType::C) => Ok(comp_field(line.as_str())),
                Ok(_) => Ok(line.as_str().substring_char(0, 0)),
                Err(e) => Err(e),
            },
        }
    }

    /// The jump mnemonic of a computation line; empty on other lines.
    pub fn jump(&self) -> (r: Result<&str, AsmError>)
        ensures
            match self.current() {
                Some(l) => match kind_of(l) {
                    Some(InstructionType::C) => r matches Ok(s) && s@ == jump_of(l),
                    Some(_) => r matches Ok(s) && s@.len() == 0,
                    None => r matches Err(AsmError::MalformedLine),
                },
                None => r matches Ok(s) && s@.len() == 0,
            },
    {
        match &self.current_instruction {
            None => {
                proof {
                    reveal_strlit("");
                }
                Ok("")
            },
            Some(line) => match classify(line.as_str()) {
                Ok(InstructionType::C) => Ok(jump_field(line.as_str())),
                Ok(_) => Ok(line.as_str().substring_char(0, 0)),
                Err(e) => Err(e),
            },
        }
    }
}

} // verus!
