use vstd::prelude::*;

use vstd::string::StringSliceAdditionalSpecFns;

use crate::processes::ModuleEntry;

verus! {

/// One position of a compiled signature: a byte to match, or a wildcard that
/// matches any byte.
#[derive(Clone, Copy, Debug, PartialEq, Eq, Structural)]
pub struct PatternByte {
    pub value: u8,
    pub wildcard: bool,
}

/// Why a signature's text does not compile.
#[derive(Clone, Copy, Debug, PartialEq, Eq, Structural)]
pub enum PatternError {
    /// No token is left once whitespace is removed.
    Empty,
    /// The text has an odd number of characters once whitespace is removed.
    OddLength,
    /// The token at this index is neither two hex digits nor a wildcard.
    InvalidToken(usize),
}

/// A wildcarded byte pattern such as `"48 8B 0D ?? ?? ?? ?? 4C"`, compiled
/// once into a non-empty sequence of bytes and wildcards.
pub struct Signature {
    tokens: Vec<PatternByte>,
}

/// The value that stands for a wildcard in `Signature::to_bytes`.
pub const WILDCARD_MARKER: i32 = 0xCC;

pub open spec fn is_blank(b: u8) -> bool {
    b == 0x20 || b == 0x09 || b == 0x0a || b == 0x0d
}

/// The text's bytes with whitespace removed.
pub open spec fn cleaned(s: Seq<u8>) -> Seq<u8>
    decreases s.len(),
{
    if s.len() == 0 {
        s
    } else if is_blank(s.last()) {
        cleaned(s.drop_last())
    } else {
        cleaned(s.drop_last()).push(s.last())
    }
}

pub open spec fn hex_value(b: u8) -> Option<u8> {
    if 0x30 <= b <= 0x39 {
        Some((b - 0x30) as u8)
    } else if 0x61 <= b <= 0x66 {
        Some((b - 0x61 + 10) as u8)
    } else if 0x41 <= b <= 0x46 {
        Some((b - 0x41 + 10) as u8)
    } else {
        None
    }
}

/// A two-character token: a wildcard where either character is `?`, else
/// a byte written as two hex digits.
pub open spec fn token_value(c0: u8, c1: u8) -> Option<PatternByte> {
    if c0 == 0x3f || c1 == 0x3f {
        Some(PatternByte { value: 0, wildcard: true })
    } else if hex_value(c0) is Some && hex_value(c1) is Some {
        Some(
            PatternByte {
                value: (hex_value(c0).unwrap() * 16 + hex_value(c1).unwrap()) as u8,
                wildcard: false,
            },
        )
    } else {
        None
    }
}

/// The `k`-th token of cleaned text `c`.
pub open spec fn token_at(c: Seq<u8>, k: int) -> Option<PatternByte> {
    token_value(c[2 * k], c[2 * k + 1])
}

pub open spec fn all_tokens_valid(c: Seq<u8>, n: int) -> bool {
    forall|k: int| 0 <= k < n ==> (#[trigger] token_at(c, k)) is Some
}

/// What compiling text whose cleaned bytes are `c` yields.
pub open spec fn compile_result(c: Seq<u8>, r: Result<Seq<PatternByte>, PatternError>) -> bool {
    match r {
        Ok(tokens) => {
            &&& c.len() > 0
            &&& c.len() % 2 == 0
            &&& all_tokens_valid(c, c.len() as int / 2)
            &&& tokens.len() == c.len() / 2
            &&& forall|k: int| 0 <= k < tokens.len() ==> Some(#[trigger] tokens[k]) == token_at(c, k)
        },
        Err(PatternError::Empty) => c.len() == 0,
        Err(PatternError::OddLength) => c.len() % 2 == 1,
        Err(PatternError::InvalidToken(k)) => {
            &&& c.len() > 0
            &&& c.len() % 2 == 0
            &&& k < c.len() / 2
            &&& token_at(c, k as int) is None
            &&& all_tokens_valid(c, k as int)
        },
    }
}

/// Does the pattern match `buf` at offset `i`?
pub open spec fn matches_at(buf: Seq<u8>, pat: Seq<PatternByte>, i: int) -> bool {
    &&& 0 <= i
    &&& i + pat.len() <= buf.len()
    &&& forall|j: int|
        0 <= j < pat.len() ==> (#[trigger] pat[j]).wildcard || buf[i + j] == pat[j].value
}

/// The lowest offset at or after `i` where the pattern matches.
pub open spec fn first_match_from(buf: Seq<u8>, pat: Seq<PatternByte>, i: int) -> Option<int>
    decreases buf.len() - i,
{
    if i < 0 || i + pat.len() > buf.len() {
        None
    } else if matches_at(buf, pat, i) {
        Some(i)
    } else {
        first_match_from(buf, pat, i + 1)
    }
}

/// The lowest offset where the pattern matches `buf`.
pub open spec fn first_match(buf: Seq<u8>, pat: Seq<PatternByte>) -> Option<int> {
    first_match_from(buf, pat, 0)
}

fn is_blank_byte(b: u8) -> (r: bool)
    ensures
        r == is_blank(b),
{
    b == 0x20 || b == 0x09 || b == 0x0a || b == 0x0d
}

fn hex_digit(b: u8) -> (r: Option<u8>)
    ensures
        r == hex_value(b),
{
    if 0x30 <= b && b <= 0x39 {
        Some(b - 0x30)
    } else if 0x61 <= b && b <= 0x66 {
        Some(b - 0x61 + 10)
    } else if 0x41 <= b && b <= 0x46 {
        Some(b - 0x41 + 10)
    } else {
        None
    }
}

fn parse_token(c0: u8, c1: u8) -> (r: Option<PatternByte>)
    ensures
        r == token_value(c0, c1),
{
    if c0 == 0x3f || c1 == 0x3f {
        return Some(PatternByte { value: 0, wildcard: true });
    }
    match (hex_digit(c0), hex_digit(c1)) {
        (Some(hi), Some(lo)) => Some(PatternByte { value: hi * 16 + lo, wildcard: false }),
        _ => None,
    }
}

/// The bytes of `s` with whitespace removed.
fn remove_blanks(s: &[u8]) -> (r: Vec<u8>)
    ensures
        r@ == cleaned(s@),
{
    let mut out: Vec<u8> = Vec::new();
    let mut i: usize = 0;
    assert(s@.subrange(0, 0) =~= Seq::<u8>::empty());
    while i < s.len()
        invariant
            i <= s.len(),
            out@ == cleaned(s@.subrange(0, i as int)),
        decreases s.len() - i,
    {
        let b = s[i];
        assert(s@.subrange(0, i + 1).drop_last() =~= s@.subrange(0, i as int));
        if !is_blank_byte(b) {
            out.push(b);
        }
        i = i + 1;
    }
    assert(s@.subrange(0, s.len() as int) =~= s@);
    out
}

impl Signature {
    pub open spec fn wf(&self) -> bool {
        self.pattern().len() > 0
    }

    pub closed spec fn pattern(&self) -> Seq<PatternByte> {
        self.tokens@
    }

    /// Compiles a space-separated pattern such as `"AA BB ?? DD"`.
    pub fn new(sig: &str) -> (r: Result<Signature, PatternError>)
        ensures
            compile_result(
                cleaned(sig.spec_bytes()),
                match r {
                    Ok(s) => Ok(s.pattern()),
                    Err(e) => Err(e),
                },
            ),
            r matches Ok(s) ==> s.wf(),
            cleaned(sig.spec_bytes()).len() % 2 == 1 ==> r == Err::<Signature, _>(
                PatternError::OddLength,
            ),
    {
        let c = remove_blanks(sig.as_bytes());
        if c.len() == 0 {
            return Err(PatternError::Empty);
        }
        if c.len() % 2 == 1 {
            return Err(PatternError::OddLength);
        }
        let n = c.len() / 2;
        let mut tokens: Vec<PatternByte> = Vec::new();
        let mut k: usize = 0;
        while k < n
            invariant
                c@ == cleaned(sig.spec_bytes()),
                c@.len() > 0,
                n == c@.len() / 2,
                c@.len() % 2 == 0,
                k <= n,
                tokens@.len() == k,
                all_tokens_valid(c@, k as int),
                forall|j: int| 0 <= j < k ==> Some(#[trigger] tokens@[j]) == token_at(c@, j),
            decreases n - k,
        {
            match parse_token(c[2 * k], c[2 * k + 1]) {
                Some(t) => {
                    tokens.push(t);
                },
                None => {
                    assert(token_at(c@, k as int) is None);
                    return Err(PatternError::InvalidToken(k));
                },
            }
            k = k + 1;
        }
        Ok(Signature { tokens })
    }

    /// The compiled pattern.
    pub fn tokens(&self) -> (r: &Vec<PatternByte>)
        ensures
            r@ == self.pattern(),
    {
        &self.tokens
    }

    /// Number of bytes the pattern spans.
    pub fn len(&self) -> (r: usize)
        ensures
            r == self.pattern().len(),
    {
        self.tokens.len()
    }

    /// The pattern as integers, a wildcard written as `WILDCARD_MARKER`.
    pub fn to_bytes(&self) -> (r: Vec<i32>)
        ensures
            r@.len() == self.pattern().len(),
            forall|j: int|
                0 <= j < r@.len() ==> #[trigger] r@[j] == if self.pattern()[j].wildcard {
                    WILDCARD_MARKER
                } else {
                    self.pattern()[j].value as i32
                },
    {
        let mut out: Vec<i32> = Vec::new();
        let mut j: usize = 0;
        while j < self.tokens.len()
            invariant
                j <= self.tokens@.len(),
                out@.len() == j,
                forall|i: int|
                    0 <= i < j ==> #[trigger] out@[i] == if self.tokens@[i].wildcard {
                        WILDCARD_MARKER
                    } else {
                        self.tokens@[i].value as i32
                    },
            decreases self.tokens@.len() - j,
        {
            let t = self.tokens[j];
            if t.wildcard {
                out.push(WILDCARD_MARKER);
            } else {
                out.push(t.value as i32);
            }
            j = j + 1;
        }
        out
    }
}

/// Does the pattern match at offset `i` of `buf`? Requires the window to fit.
fn matches_here(buf: &[u8], pat: &Vec<PatternByte>, i: usize) -> (r: bool)
    requires
        i + pat@.len() <= buf@.len(),
    ensures
        r == matches_at(buf@, pat@, i as int),
{
    let len = buf.len();
    let mut j: usize = 0;
    while j < pat.len()
        invariant
            len == buf@.len(),
            i + pat@.len() <= buf@.len(),
            j <= pat@.len(),
            forall|jj: int|
                0 <= jj < j ==> (#[trigger] pat@[jj]).wildcard || buf@[i + jj] == pat@[jj].value,
        decreases pat@.len() - j,
    {
        let t = pat[j];
        if !t.wildcard && buf[i + j] != t.value {
            return false;
        }
        j = j + 1;
    }
    true
}

/// The lowest offset of `buf` where `pattern` matches, or `None` when it matches
/// nowhere (also when `buf` is shorter than the pattern).
pub fn scan(buf: &[u8], pattern: &Signature) -> (r: Option<usize>)
    ensures
        match r {
            Some(k) => first_match(buf@, pattern.pattern()) == Some(k as int),
            None => first_match(buf@, pattern.pattern()) is None,
        },
{
    let pat = pattern.tokens();
    let n = pat.len();
    if n > buf.len() {
        return None;
    }
    let last = buf.len() - n;
    let mut i: usize = 0;
    while i <= last
        invariant
            pat@ == pattern.pattern(),
            n == pat@.len(),
            last + n == buf@.len(),
            first_match_from(buf@, pat@, i as int) == first_match(buf@, pat@),
            i <= last + 1,
        decreases last + 1 - i,
    {
        if matches_here(buf, pat, i) {
            return Some(i);
        }
        if i == last {
            return None;
        }
        i = i + 1;
    }
    None
}

/// Scans a local copy of remote memory taken at `base`, giving the remote
/// address of the first match.
pub fn scan_at(image: &[u8], pattern: &Signature, base: usize) -> (r: Option<usize>)
    requires
        base + image@.len() <= usize::MAX,
    ensures
        match r {
            Some(a) => first_match(image@, pattern.pattern()) == Some(a - base),
            None => first_match(image@, pattern.pattern()) is None,
        },
{
    match scan(image, pattern) {
        Some(k) => {
            proof {
                lemma_first_match_from_matches(image@, pattern.pattern(), 0);
            }
            Some(base + k)
        },
        None => None,
    }
}

/// Scans the copy of a whole module image for the first match, giving its
/// remote address.
pub fn pattern_scan_module(image: &[u8], pattern: &Signature, module: &ModuleEntry) -> (r: Option<
    usize,
>)
    requires
        module.base + image@.len() <= usize::MAX,
    ensures
        match r {
            Some(a) => first_match(image@, pattern.pattern()) == Some(a - module.base),
            None => first_match(image@, pattern.pattern()) is None,
        },
{
    scan_at(image, pattern, module.base)
}

/// A match found from `i` on is a match.
pub proof fn lemma_first_match_from_matches(buf: Seq<u8>, pat: Seq<PatternByte>, i: int)
    ensures
        first_match_from(buf, pat, i) matches Some(k) ==> i <= k && matches_at(buf, pat, k),
    decreases buf.len() - i,
{
    if !(i < 0 || i + pat.len() > buf.len()) && !matches_at(buf, pat, i) {
        lemma_first_match_from_matches(buf, pat, i + 1);
    }
}

/// Where the pattern matches at `k`, the search from any `i <= k` stops at or before `k`.
pub proof fn lemma_found_by(buf: Seq<u8>, pat: Seq<PatternByte>, i: int, k: int)
    requires
        0 <= i <= k,
        matches_at(buf, pat, k),
    ensures
        first_match_from(buf, pat, i) matches Some(j) && i <= j <= k,
        (forall|j: int| i <= j < k ==> !matches_at(buf, pat, j)) ==> first_match_from(buf, pat, i)
            == Some(k),
    decreases k - i,
{
    if i < k && !matches_at(buf, pat, i) {
        lemma_found_by(buf, pat, i + 1, k);
    }
}

/// A pattern without wildcards, present in `buf` at `k` and nowhere before, is
/// found at `k`.
pub proof fn lemma_scan_finds_first_occurrence(buf: Seq<u8>, pat: Seq<PatternByte>, k: int)
    requires
        pat.len() > 0,
        forall|j: int| 0 <= j < pat.len() ==> !(#[trigger] pat[j]).wildcard,
        0 <= k,
        k + pat.len() <= buf.len(),
        forall|j: int| 0 <= j < pat.len() ==> buf[k + j] == (#[trigger] pat[j]).value,
        forall|i: int| 0 <= i < k ==> !matches_at(buf, pat, i),
    ensures
        first_match(buf, pat) == Some(k),
{
    assert(matches_at(buf, pat, k));
    lemma_found_by(buf, pat, 0, k);
}

/// A pattern with a wildcard is found in any buffer that holds its fixed bytes
/// at `k`, whatever the bytes under its wildcards: at `k` or at an earlier match.
pub proof fn lemma_wildcards_match_any_byte(buf: Seq<u8>, pat: Seq<PatternByte>, k: int)
    requires
        exists|j: int| 0 <= j < pat.len() && (#[trigger] pat[j]).wildcard,
        0 <= k,
        k + pat.len() <= buf.len(),
        forall|j: int|
            0 <= j < pat.len() && !(#[trigger] pat[j]).wildcard ==> buf[k + j] == pat[j].value,
    ensures
        first_match(buf, pat) matches Some(i) && i <= k,
{
    assert(matches_at(buf, pat, k));
    lemma_found_by(buf, pat, 0, k);
}

/// A buffer shorter than the pattern holds no match.
pub proof fn lemma_short_buffer_has_no_match(buf: Seq<u8>, pat: Seq<PatternByte>)
    requires
        buf.len() < pat.len(),
    ensures
        first_match(buf, pat) is None,
{
}

/// Where a walk over the address space goes after the region at `base` of
/// `size` bytes: the next region's address, or `None` once the space below
/// `end` is used up or the region is empty (the walk could not advance).
pub fn next_region(base: u64, size: u64, end: u64) -> (r: Option<u64>)
    ensures
        r == if size == 0 || base + size >= end {
            None
        } else {
            Some((base + size) as u64)
        },
{
    if size == 0 || base >= end || size >= end - base {
        None
    } else {
        Some(base + size)
    }
}

/// Region state of committed memory.
pub const MEM_COMMIT: u32 = 0x1000;

/// Protection of a region that cannot be accessed at all.
pub const PAGE_NOACCESS: u32 = 0x01;

/// A region is worth scanning when it is committed and not marked no-access.
pub fn region_is_scannable(state: u32, protect: u32) -> (r: bool)
    ensures
        r == (state == MEM_COMMIT && protect != PAGE_NOACCESS),
{
    state == MEM_COMMIT && protect != PAGE_NOACCESS
}

} // verus!
