//! The keyword catalog: an enumerated, case-insensitive lexical category
//! attached to word tokens by the tokenizer. Grammars match on keyword
//! values, never on raw text.

use vstd::prelude::*;

verus! {

/// The keywords the grammars in this crate recognize. A word token whose
/// spelling matches none of them carries `NoKeyword`.
#[derive(Clone, Copy, Debug, PartialEq, Eq, Structural)]
pub enum Keyword {
    DELETE,
    FROM,
    USING,
    WHERE,
    ORDER,
    BY,
    LIMIT,
    SELECT,
    ALL,
    ASC,
    DESC,
    NoKeyword,
}

/// The upper-case spelling of a keyword (empty for `NoKeyword`).
pub open spec fn spelling(kw: Keyword) -> Seq<char> {
    match kw {
        Keyword::DELETE => seq!['D', 'E', 'L', 'E', 'T', 'E'],
        Keyword::FROM => seq!['F', 'R', 'O', 'M'],
        Keyword::USING => seq!['U', 'S', 'I', 'N', 'G'],
        Keyword::WHERE => seq!['W', 'H', 'E', 'R', 'E'],
        Keyword::ORDER => seq!['O', 'R', 'D', 'E', 'R'],
        Keyword::BY => seq!['B', 'Y'],
        Keyword::LIMIT => seq!['L', 'I', 'M', 'I', 'T'],
        Keyword::SELECT => seq!['S', 'E', 'L', 'E', 'C', 'T'],
        Keyword::ALL => seq!['A', 'L', 'L'],
        Keyword::ASC => seq!['A', 'S', 'C'],
        Keyword::DESC => seq!['D', 'E', 'S', 'C'],
        Keyword::NoKeyword => seq![],
    }
}

/// `c` equals the upper-case ASCII letter `u` up to case: either exactly,
/// or as its lower-case counterpart.
pub open spec fn spec_ascii_ci_eq(c: char, u: char) -> bool {
    c == u || (65 <= u as u32 && u as u32 <= 90 && c as u32 == u as u32 + 32)
}

/// `s` spells the upper-case word `t`, compared case-insensitively.
pub open spec fn spec_ci_match(s: Seq<char>, t: Seq<char>) -> bool {
    s.len() == t.len() && forall|i: int| 0 <= i < s.len() ==> spec_ascii_ci_eq(#[trigger] s[i], t[i])
}

/// The keyword a bare word of spelling `s` denotes, or `NoKeyword`.
pub open spec fn spec_keyword_of(s: Seq<char>) -> Keyword {
    if spec_ci_match(s, spelling(Keyword::DELETE)) {
        Keyword::DELETE
    } else if spec_ci_match(s, spelling(Keyword::FROM)) {
        Keyword::FROM
    } else if spec_ci_match(s, spelling(Keyword::USING)) {
        Keyword::USING
    } else if spec_ci_match(s, spelling(Keyword::WHERE)) {
        Keyword::WHERE
    } else if spec_ci_match(s, spelling(Keyword::ORDER)) {
        Keyword::ORDER
    } else if spec_ci_match(s, spelling(Keyword::BY)) {
        Keyword::BY
    } else if spec_ci_match(s, spelling(Keyword::LIMIT)) {
        Keyword::LIMIT
    } else if spec_ci_match(s, spelling(Keyword::SELECT)) {
        Keyword::SELECT
    } else if spec_ci_match(s, spelling(Keyword::ALL)) {
        Keyword::ALL
    } else if spec_ci_match(s, spelling(Keyword::ASC)) {
        Keyword::ASC
    } else if spec_ci_match(s, spelling(Keyword::DESC)) {
        Keyword::DESC
    } else {
        Keyword::NoKeyword
    }
}

fn ascii_ci_eq(c: char, u: char) -> (r: bool)
    ensures
        r == spec_ascii_ci_eq(c, u),
{
    let cu = c as u32;
    let uu = u as u32;
    c == u || (65 <= uu && uu <= 90 && cu == uu + 32)
}

fn ci_match(s: &Vec<char>, t: &Vec<char>) -> (r: bool)
    ensures
        r == spec_ci_match(s@, t@),
{
    if s.len() != t.len() {
        return false;
    }
    let mut i: usize = 0;
    while i < s.len()
        invariant
            0 <= i <= s@.len(),
            s@.len() == t@.len(),
            forall|j: int| 0 <= j < i ==> spec_ascii_ci_eq(#[trigger] s@[j], t@[j]),
        decreases s@.len() - i,
    {
        if !ascii_ci_eq(s[i], t[i]) {
            return false;
        }
        i = i + 1;
    }
    true
}

fn spelling_chars(kw: Keyword) -> (v: Vec<char>)
    ensures
        v@ == spelling(kw),
{
    let mut v: Vec<char> = Vec::new();
    match kw {
        Keyword::DELETE => {
            v.push('D');
            v.push('E');
            v.push('L');
            v.push('E');
            v.push('T');
            v.push('E');
        },
        Keyword::FROM => {
            v.push('F');
            v.push('R');
            v.push('O');
            v.push('M');
        },
        Keyword::USING => {
            v.push('U');
            v.push('S');
            v.push('I');
            v.push('N');
            v.push('G');
        },
        Keyword::WHERE => {
            v.push('W');
            v.push('H');
            v.push('E');
            v.push('R');
            v.push('E');
        },
        Keyword::ORDER => {
            v.push('O');
            v.push('R');
            v.push('D');
            v.push('E');
            v.push('R');
        },
        Keyword::BY => {
            v.push('B');
            v.push('Y');
        },
        Keyword::LIMIT => {
            v.push('L');
            v.push('I');
            v.push('M');
            v.push('I');
            v.push('T');
        },
        Keyword::SELECT => {
            v.push('S');
            v.push('E');
            v.push('L');
            v.push('E');
            v.push('C');
            v.push('T');
        },
        Keyword::ALL => {
            v.push('A');
            v.push('L');
            v.push('L');
        },
        Keyword::ASC => {
            v.push('A');
            v.push('S');
            v.push('C');
        },
        Keyword::DESC => {
            v.push('D');
            v.push('E');
            v.push('S');
            v.push('C');
        },
        Keyword::NoKeyword => {},
    }
    proof {
        assert(v@ =~= spelling(kw));
    }
    v
}

/// The keyword the bare word `w` denotes, or `NoKeyword` if it denotes none.
pub fn keyword_of(w: &Vec<char>) -> (k: Keyword)
    ensures
        k == spec_keyword_of(w@),
{
    if ci_match(w, &spelling_chars(Keyword::DELETE)) {
        Keyword::DELETE
    } else if ci_match(w, &spelling_chars(Keyword::FROM)) {
        Keyword::FROM
    } else if ci_match(w, &spelling_chars(Keyword::USING)) {
        Keyword::USING
    } else if ci_match(w, &spelling_chars(Keyword::WHERE)) {
        Keyword::WHERE
    } else if ci_match(w, &spelling_chars(Keyword::ORDER)) {
        Keyword::ORDER
    } else if ci_match(w, &spelling_chars(Keyword::BY)) {
        Keyword::BY
    } else if ci_match(w, &spelling_chars(Keyword::LIMIT)) {
        Keyword::LIMIT
    } else if ci_match(w, &spelling_chars(Keyword::SELECT)) {
        Keyword::SELECT
    } else if ci_match(w, &spelling_chars(Keyword::ALL)) {
        Keyword::ALL
    } else if ci_match(w, &spelling_chars(Keyword::ASC)) {
        Keyword::ASC
    } else if ci_match(w, &spelling_chars(Keyword::DESC)) {
        Keyword::DESC
    } else {
        Keyword::NoKeyword
    }
}

} // verus!
