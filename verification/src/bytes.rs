//! Byte-sequence utilities shared by the protocol and parsing modules:
//! substring search, ASCII case folding, textual replacement and decimal
//! rendering, each with an exact specification.

use vstd::prelude::*;

verus! {

/// ASCII code of 'A'.
pub const UPPER_A: u8 = 65;

/// ASCII code of 'Z'.
pub const UPPER_Z: u8 = 90;

/// ASCII code of '0'.
pub const DIGIT_0: u8 = 48;

/// `needle` occurs in `hay` starting at index `i`.
pub open spec fn match_at(hay: Seq<u8>, needle: Seq<u8>, i: int) -> bool {
    0 <= i && i + needle.len() <= hay.len() && hay.subrange(i, i + needle.len()) == needle
}

/// `needle` occurs somewhere in `hay`.
pub open spec fn has_match(hay: Seq<u8>, needle: Seq<u8>) -> bool {
    exists|i: int| match_at(hay, needle, i)
}

/// Index of the leftmost occurrence of `needle` in `hay`, if any.
pub open spec fn spec_find(hay: Seq<u8>, needle: Seq<u8>) -> Option<int>
    decreases hay.len(),
{
    if match_at(hay, needle, 0) {
        Some(0int)
    } else if hay.len() == 0 {
        None
    } else {
        match spec_find(hay.subrange(1, hay.len() as int), needle) {
            None => None,
            Some(i) => Some(i + 1),
        }
    }
}

/// `spec_find` returns the leftmost match: a match where it points, none before;
/// and `None` exactly when there is no match at all.
pub proof fn lemma_find_characterization(hay: Seq<u8>, needle: Seq<u8>)
    ensures
        match spec_find(hay, needle) {
            Some(i) => match_at(hay, needle, i) && (forall|j: int|
                0 <= j < i ==> !match_at(hay, needle, j)),
            None => forall|i: int| !match_at(hay, needle, i),
        },
    decreases hay.len(),
{
    if match_at(hay, needle, 0) {
    } else if hay.len() == 0 {
        assert forall|i: int| !match_at(hay, needle, i) by {
            if match_at(hay, needle, i) {
                assert(i == 0);
            }
        }
    } else {
        let tail = hay.subrange(1, hay.len() as int);
        lemma_find_characterization(tail, needle);
        assert forall|j: int| match_at(tail, needle, j) implies match_at(
            hay,
            needle,
            j + 1,
        ) by {
            assert(hay.subrange(j + 1, j + 1 + needle.len() as int) =~= tail.subrange(
                j,
                j + needle.len() as int,
            ));
        }
        assert forall|j: int| match_at(hay, needle, j) && j != 0 implies match_at(
            tail,
            needle,
            j - 1,
        ) by {
            assert(tail.subrange(j - 1, j - 1 + needle.len() as int) =~= hay.subrange(
                j,
                j + needle.len() as int,
            ));
        }
        match spec_find(tail, needle) {
            None => {
                assert forall|i: int| !match_at(hay, needle, i) by {
                    if match_at(hay, needle, i) {
                        assert(i != 0);
                        assert(match_at(tail, needle, i - 1));
                    }
                }
            },
            Some(i) => {
                assert(match_at(hay, needle, i + 1));
                assert forall|j: int| 0 <= j < i + 1 implies !match_at(hay, needle, j) by {
                    if j != 0 && match_at(hay, needle, j) {
                        assert(match_at(tail, needle, j - 1));
                    }
                }
            },
        }
    }
}

/// A match exists exactly when `spec_find` returns an index.
pub proof fn lemma_find_some_iff(hay: Seq<u8>, needle: Seq<u8>)
    ensures
        spec_find(hay, needle) is Some <==> has_match(hay, needle),
{
    lemma_find_characterization(hay, needle);
    match spec_find(hay, needle) {
        Some(i) => {
            assert(match_at(hay, needle, i));
        },
        None => {},
    }
}

/// Whether `needle` occurs in `hay` starting exactly at `i`.
fn match_at_exec(hay: &[u8], needle: &[u8], i: usize) -> (r: bool)
    requires
        i + needle@.len() <= hay@.len(),
    ensures
        r == match_at(hay@, needle@, i as int),
{
    let n = needle.len();
    let hl = hay.len();
    let mut j: usize = 0;
    while j < n
        invariant
            j <= n,
            n == needle@.len(),
            hl == hay@.len(),
            i + n <= hl,
            forall|k: int| 0 <= k < j ==> hay@[i + k] == needle@[k],
        decreases n - j,
    {
        if hay[i + j] != needle[j] {
            assert(hay@.subrange(i as int, i + n) != needle@) by {
                assert(hay@.subrange(i as int, i + n)[j as int] == hay@[i + j]);
            }
            return false;
        }
        j += 1;
    }
    assert(hay@.subrange(i as int, i + n) =~= needle@);
    true
}

/// Index of the leftmost occurrence of `needle` in `hay`, if any.
pub fn find_sub(hay: &[u8], needle: &[u8]) -> (r: Option<usize>)
    ensures
        match r {
            Some(i) => spec_find(hay@, needle@) == Some(i as int),
            None => spec_find(hay@, needle@) is None,
        },
{
    proof {
        lemma_find_characterization(hay@, needle@);
        lemma_find_some_iff(hay@, needle@);
    }
    if needle.len() > hay.len() {
        assert(forall|i: int| !match_at(hay@, needle@, i));
        return None;
    }
    let bound = hay.len() - needle.len();
    let mut i: usize = 0;
    loop
        invariant
            i <= bound,
            bound == hay@.len() - needle@.len(),
            needle@.len() <= hay@.len(),
            forall|j: int| 0 <= j < i ==> !match_at(hay@, needle@, j),
        decreases bound - i,
    {
        proof {
            lemma_find_characterization(hay@, needle@);
        }
        if match_at_exec(hay, needle, i) {
            return Some(i);
        }
        if i == bound {
            assert forall|j: int| !match_at(hay@, needle@, j) by {
                if match_at(hay@, needle@, j) {
                    assert(0 <= j <= bound);
                }
            }
            return None;
        }
        i += 1;
    }
}

/// Whether `needle` occurs anywhere in `hay`.
pub fn contains_sub(hay: &[u8], needle: &[u8]) -> (r: bool)
    ensures
        r == has_match(hay@, needle@),
{
    proof {
        lemma_find_some_iff(hay@, needle@);
    }
    find_sub(hay, needle).is_some()
}

/// Whether two byte strings hold the same bytes.
pub fn bytes_eq(a: &[u8], b: &[u8]) -> (r: bool)
    ensures
        r == (a@ == b@),
{
    let n = a.len();
    if n != b.len() {
        return false;
    }
    let mut i: usize = 0;
    while i < n
        invariant
            i <= n,
            n == a@.len(),
            n == b@.len(),
            forall|k: int| 0 <= k < i ==> a@[k] == b@[k],
        decreases n - i,
    {
        if a[i] != b[i] {
            return false;
        }
        i += 1;
    }
    assert(a@ =~= b@);
    true
}

/// ASCII lower-casing of one byte.
pub open spec fn spec_lower_byte(b: u8) -> u8 {
    if UPPER_A <= b && b <= UPPER_Z {
        (b + 32) as u8
    } else {
        b
    }
}

/// ASCII lower-casing of a byte sequence.
pub open spec fn spec_lower(s: Seq<u8>) -> Seq<u8> {
    s.map_values(|b: u8| spec_lower_byte(b))
}

/// ASCII lower-casing, byte for byte.
pub fn lower_bytes(s: &[u8]) -> (r: Vec<u8>)
    ensures
        r@ == spec_lower(s@),
{
    let n = s.len();
    let mut out: Vec<u8> = Vec::new();
    let mut i: usize = 0;
    while i < n
        invariant
            i <= n,
            n == s@.len(),
            out@.len() == i,
            forall|k: int| 0 <= k < i ==> out@[k] == spec_lower_byte(s@[k]),
        decreases n - i,
    {
        let b = s[i];
        if UPPER_A <= b && b <= UPPER_Z {
            out.push(b + 32);
        } else {
            out.push(b);
        }
        i += 1;
    }
    assert(out@ =~= spec_lower(s@));
    out
}

/// `hay` with every non-overlapping occurrence of `needle`, scanned from the
/// left, replaced by `repl`.  An empty `needle` replaces nothing.
pub open spec fn spec_replace_all(hay: Seq<u8>, needle: Seq<u8>, repl: Seq<u8>) -> Seq<u8>
    decreases hay.len(),
    via spec_replace_all_decreases
{
    if needle.len() == 0 {
        hay
    } else {
        match spec_find(hay, needle) {
            None => hay,
            Some(i) => hay.subrange(0, i) + repl + spec_replace_all(
                hay.subrange(i + needle.len() as int, hay.len() as int),
                needle,
                repl,
            ),
        }
    }
}

#[via_fn]
proof fn spec_replace_all_decreases(hay: Seq<u8>, needle: Seq<u8>, repl: Seq<u8>) {
    lemma_find_characterization(hay, needle);
}

/// Replaces every non-overlapping occurrence of `needle` in `hay` by `repl`,
/// scanning from the left.
pub fn replace_all(hay: &[u8], needle: &[u8], repl: &[u8]) -> (r: Vec<u8>)
    ensures
        r@ == spec_replace_all(hay@, needle@, repl@),
    decreases hay@.len(),
{
    proof {
        lemma_find_characterization(hay@, needle@);
    }
    if needle.len() == 0 {
        let mut out: Vec<u8> = Vec::new();
        out.extend_from_slice(hay);
        return out;
    }
    match find_sub(hay, needle) {
        None => {
            let mut out: Vec<u8> = Vec::new();
            out.extend_from_slice(hay);
            out
        },
        Some(i) => {
            assert(match_at(hay@, needle@, i as int));
            let hl = hay.len();
            assert(i + needle@.len() <= hl);
            let mut out: Vec<u8> = Vec::new();
            out.extend_from_slice(&hay[0..i]);
            out.extend_from_slice(repl);
            let tail = replace_all(&hay[i + needle.len()..hay.len()], needle, repl);
            out.extend_from_slice(tail.as_slice());
            out
        },
    }
}

/// Decimal digits of `n`, most significant first.
pub open spec fn spec_dec(n: nat) -> Seq<u8>
    decreases n,
{
    if n < 10 {
        seq![(DIGIT_0 + n) as u8]
    } else {
        spec_dec(n / 10) + seq![(DIGIT_0 + n % 10) as u8]
    }
}

/// Renders `n` in decimal, most significant digit first.
pub fn u64_to_dec(n: u64) -> (r: Vec<u8>)
    ensures
        r@ == spec_dec(n as nat),
    decreases n,
{
    if n < 10 {
        let mut out: Vec<u8> = Vec::new();
        out.push(DIGIT_0 + (n as u8));
        assert(out@ =~= spec_dec(n as nat));
        out
    } else {
        let mut out = u64_to_dec(n / 10);
        out.push(DIGIT_0 + ((n % 10) as u8));
        assert(out@ =~= spec_dec(n as nat));
        out
    }
}

} // verus!
