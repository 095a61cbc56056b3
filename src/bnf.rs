//! Byte classes and the low-level scanners of the header grammar.

use vstd::prelude::*;

verus! {

/// The classes of bytes that the scanners recognise.
#[derive(Clone, Copy, Debug, PartialEq, Eq, Structural)]
pub enum ByteClass {
    /// RFC 3261 `token` characters.
    Token,
    /// RFC 3261 `word` characters.
    Word,
    /// Decimal digits.
    Digit,
    /// Space and horizontal tab.
    Wsp,
}

impl ByteClass {
    pub open spec fn holds(self, b: u8) -> bool {
        match self {
            ByteClass::Token => is_token_byte(b),
            ByteClass::Word => is_word_byte(b),
            ByteClass::Digit => is_digit_byte(b),
            ByteClass::Wsp => b == 0x20u8 || b == 0x09u8,
        }
    }

    /// Whether `b` belongs to the class.
    pub fn test(&self, b: u8) -> (r: bool)
        ensures
            r == self.holds(b),
    {
        match self {
            ByteClass::Token => token_byte(b),
            ByteClass::Word => token_byte(b) || word_punct_byte(b),
            ByteClass::Digit => 0x30u8 <= b && b <= 0x39u8,
            ByteClass::Wsp => b == 0x20u8 || b == 0x09u8,
        }
    }
}

pub open spec fn is_alnum_byte(b: u8) -> bool {
    (0x30u8 <= b <= 0x39u8) || (0x41u8 <= b <= 0x5Au8) || (0x61u8 <= b <= 0x7Au8)
}

pub open spec fn is_digit_byte(b: u8) -> bool {
    0x30u8 <= b <= 0x39u8
}

/// `alphanum / "-" / "." / "!" / "%" / "*" / "_" / "+" / "`" / "'" / "~"`
pub open spec fn is_token_byte(b: u8) -> bool {
    is_alnum_byte(b) || b == 0x2Du8 || b == 0x2Eu8 || b == 0x21u8 || b == 0x25u8 || b == 0x2Au8
        || b == 0x5Fu8 || b == 0x2Bu8 || b == 0x60u8 || b == 0x27u8 || b == 0x7Eu8
}

/// What `word` adds to `token`: `( ) < > : \ DQUOTE / [ ] ? { }`
pub open spec fn is_word_punct_byte(b: u8) -> bool {
    b == 0x28u8 || b == 0x29u8 || b == 0x3Cu8 || b == 0x3Eu8 || b == 0x3Au8 || b == 0x5Cu8
        || b == 0x22u8 || b == 0x2Fu8 || b == 0x5Bu8 || b == 0x5Du8 || b == 0x3Fu8 || b == 0x7Bu8
        || b == 0x7Du8
}

pub open spec fn is_word_byte(b: u8) -> bool {
    is_token_byte(b) || is_word_punct_byte(b)
}

/// Whether `b` is a token character.
pub fn token_byte(b: u8) -> (r: bool)
    ensures
        r == is_token_byte(b),
{
    (0x30u8 <= b && b <= 0x39u8) || (0x41u8 <= b && b <= 0x5Au8) || (0x61u8 <= b && b <= 0x7Au8) || b == 0x2Du8
        || b == 0x2Eu8 || b == 0x21u8 || b == 0x25u8 || b == 0x2Au8 || b == 0x5Fu8 || b == 0x2Bu8 || b == 0x60u8
        || b == 0x27u8 || b == 0x7Eu8
}

fn word_punct_byte(b: u8) -> (r: bool)
    ensures
        r == is_word_punct_byte(b),
{
    b == 0x28u8 || b == 0x29u8 || b == 0x3Cu8 || b == 0x3Eu8 || b == 0x3Au8 || b == 0x5Cu8 || b == 0x22u8
        || b == 0x2Fu8 || b == 0x5Bu8 || b == 0x5Du8 || b == 0x3Fu8 || b == 0x7Bu8 || b == 0x7Du8
}

/// The position just past the run of bytes of class `c` that starts at `i`.
pub open spec fn run_end(s: Seq<u8>, i: int, c: ByteClass) -> int
    decreases s.len() - i,
{
    if 0 <= i < s.len() && c.holds(s[i]) {
        run_end(s, i + 1, c)
    } else {
        i
    }
}

pub proof fn lemma_run_end_bounds(s: Seq<u8>, i: int, c: ByteClass)
    requires
        0 <= i <= s.len(),
    ensures
        i <= run_end(s, i, c) <= s.len(),
        run_end(s, i, c) < s.len() ==> !c.holds(s[run_end(s, i, c)]),
        forall|k: int| i <= k < run_end(s, i, c) ==> c.holds(#[trigger] s[k]),
    decreases s.len() - i,
{
    if i < s.len() && c.holds(s[i]) {
        lemma_run_end_bounds(s, i + 1, c);
    }
}

/// Whether a line terminator (CR LF) starts at `i`.
pub open spec fn crlf_at(s: Seq<u8>, i: int) -> bool {
    0 <= i && i + 1 < s.len() && s[i] == 0x0Du8 && s[i + 1] == 0x0Au8
}

/// A punctuation byte `p` with the whitespace around it: the position past it,
/// or `None` where `p` does not follow the whitespace at `i`.
pub open spec fn sep_end(s: Seq<u8>, i: int, p: u8) -> Option<int> {
    let j = run_end(s, i, ByteClass::Wsp);
    if 0 <= j < s.len() && s[j] == p {
        Some(run_end(s, j + 1, ByteClass::Wsp))
    } else {
        None
    }
}

pub proof fn lemma_sep_end(s: Seq<u8>, i: int, p: u8)
    requires
        0 <= i <= s.len(),
    ensures
        sep_end(s, i, p) matches Some(k) ==> i < k <= s.len(),
{
    lemma_run_end_bounds(s, i, ByteClass::Wsp);
    let j = run_end(s, i, ByteClass::Wsp);
    if 0 <= j < s.len() && s[j] == p {
        lemma_run_end_bounds(s, j + 1, ByteClass::Wsp);
    }
}

/// Skips the run of bytes of class `c` that starts at `i`.
pub fn take_while(s: &[u8], i: usize, c: ByteClass) -> (r: usize)
    requires
        i <= s@.len(),
    ensures
        r == run_end(s@, i as int, c),
        i <= r <= s@.len(),
{
    let mut j: usize = i;
    while j < s.len() && c.test(s[j])
        invariant
            i <= j <= s@.len(),
            run_end(s@, i as int, c) == run_end(s@, j as int, c),
        decreases s@.len() - j,
    {
        j = j + 1;
    }
    proof {
        lemma_run_end_bounds(s@, i as int, c);
    }
    j
}

/// Whether a line terminator starts at `i`.
pub fn is_crlf(s: &[u8], i: usize) -> (r: bool)
    ensures
        r == crlf_at(s@, i as int),
{
    i < s.len() && s.len() - i >= 2 && s[i] == 0x0Du8 && s[i + 1] == 0x0Au8
}

/// Skips whitespace, the byte `p` and whitespace again.
pub fn take_sep(s: &[u8], i: usize, p: u8) -> (r: Option<usize>)
    requires
        i <= s@.len(),
    ensures
        r is None <==> sep_end(s@, i as int, p) is None,
        r matches Some(k) ==> sep_end(s@, i as int, p) == Some(k as int) && i < k <= s@.len(),
{
    proof {
        lemma_sep_end(s@, i as int, p);
    }
    let j = take_while(s, i, ByteClass::Wsp);
    if j < s.len() && s[j] == p {
        Some(take_while(s, j + 1, ByteClass::Wsp))
    } else {
        None
    }
}

} // verus!
