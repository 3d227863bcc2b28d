use vstd::prelude::*;

use crate::error::ModuleSigScanError;

verus! {

/// A signature element matches a byte when it is a wildcard (`None`) or
/// names exactly that byte.
pub open spec fn byte_matches(e: Option<u8>, b: u8) -> bool {
    match e {
        None => true,
        Some(x) => x == b,
    }
}

/// The signature `sig` matches the bytes of `region` that start at `i`.
pub open spec fn sig_matches_at(region: Seq<u8>, sig: Seq<Option<u8>>, i: int) -> bool {
    &&& 0 <= i
    &&& i + sig.len() <= region.len()
    &&& forall|j: int| 0 <= j < sig.len() ==> #[trigger] byte_matches(sig[j], region[i + j])
}

/// What a scan of `region` for `sig` yields: the offset of the only match,
/// or why there is none.
pub open spec fn scan_outcome(region: Seq<u8>, sig: Seq<Option<u8>>) -> Result<usize, ModuleSigScanError> {
    if sig.len() == 0 {
        Err(ModuleSigScanError::EmptySignature)
    } else if exists|i: int| sig_matches_at(region, sig, i) {
        let i = choose|i: int| sig_matches_at(region, sig, i);
        if exists|j: int| j != i && sig_matches_at(region, sig, j) {
            Err(ModuleSigScanError::MultipleFound)
        } else {
            Ok(i as usize)
        }
    } else {
        Err(ModuleSigScanError::NotFound)
    }
}

fn element_matches(e: Option<u8>, b: u8) -> (r: bool)
    ensures
        r == byte_matches(e, b),
{
    match e {
        None => true,
        Some(x) => x == b,
    }
}

/// Scans `region` for `signature` in one left-to-right pass, and returns
/// the offset of its single occurrence.
///
/// A second occurrence, overlapping or not, fails the scan with
/// `MultipleFound`; none fails it with `NotFound`. An empty signature is
/// refused with `EmptySignature`. No byte outside `region` is read, also
/// when a candidate starts near its end.
pub fn scan(region: &[u8], signature: &[Option<u8>]) -> (r: Result<usize, ModuleSigScanError>)
    ensures
        r == scan_outcome(region@, signature@),
        signature@.len() == 0 ==> r == Err::<usize, ModuleSigScanError>(ModuleSigScanError::EmptySignature),
        signature@.len() > 0 ==> match r {
            Ok(off) => sig_matches_at(region@, signature@, off as int)
                && forall|j: int| #[trigger] sig_matches_at(region@, signature@, j) ==> j == off,
            Err(ModuleSigScanError::NotFound) => forall|j: int| !#[trigger] sig_matches_at(region@, signature@, j),
            Err(ModuleSigScanError::MultipleFound) => exists|i: int, j: int|
                i != j && #[trigger] sig_matches_at(region@, signature@, i) && #[trigger] sig_matches_at(region@, signature@, j),
            _ => false,
        },
        r matches Ok(off) ==> off + signature@.len() <= region@.len(),
{
    let n = region.len();
    let m = signature.len();
    if m == 0 {
        return Err(ModuleSigScanError::EmptySignature);
    }
    if m > n {
        assert forall|j: int| !sig_matches_at(region@, signature@, j) by {}
        return Err(ModuleSigScanError::NotFound);
    }
    let last: usize = n - m;
    // `start` is where the current candidate begins; `k` counts how many of
    // its elements have matched so far, so the cursor stands at `start + k`.
    let mut start: usize = 0;
    let mut k: usize = 0;
    let mut found: Option<usize> = None;
    while start <= last
        invariant
            n == region@.len(),
            m == signature@.len(),
            0 < m <= n,
            last == n - m,
            start <= last + 1,
            k < m,
            forall|j: int| 0 <= j < k ==> #[trigger] byte_matches(signature@[j], region@[start + j]),
            match found {
                Some(f) => f < start && sig_matches_at(region@, signature@, f as int)
                    && forall|j: int| 0 <= j < start && #[trigger] sig_matches_at(region@, signature@, j) ==> j == f,
                None => forall|j: int| 0 <= j < start ==> !#[trigger] sig_matches_at(region@, signature@, j),
            },
        decreases last + 1 - start, m - k,
    {
        let cursor = start + k;
        if element_matches(signature[k], region[cursor]) {
            if k + 1 == m {
                assert(sig_matches_at(region@, signature@, start as int));
                if let Some(f) = found {
                    assert(sig_matches_at(region@, signature@, f as int));
                    proof { lemma_two_matches_give_multiple(region@, signature@, f as int, start as int); }
                    return Err(ModuleSigScanError::MultipleFound);
                }
                found = Some(start);
                start = start + 1;
                k = 0;
            } else {
                k = k + 1;
            }
        } else {
            assert(!sig_matches_at(region@, signature@, start as int));
            start = start + 1;
            k = 0;
        }
    }
    proof {
        assert forall|j: int| start <= j implies !sig_matches_at(region@, signature@, j) by {}
    }
    match found {
        Some(f) => {
            proof { lemma_single_match_gives_offset(region@, signature@, f as int); }
            Ok(f)
        },
        None => Err(ModuleSigScanError::NotFound),
    }
}

/// A signature that matches at two different offsets of a region, however
/// much the two occurrences overlap, makes the scan fail with `MultipleFound`.
pub proof fn lemma_two_matches_give_multiple(region: Seq<u8>, sig: Seq<Option<u8>>, i: int, j: int)
    requires
        sig.len() > 0,
        i != j,
        sig_matches_at(region, sig, i),
        sig_matches_at(region, sig, j),
    ensures
        scan_outcome(region, sig) == Err::<usize, ModuleSigScanError>(ModuleSigScanError::MultipleFound),
{
    let c = choose|c: int| sig_matches_at(region, sig, c);
    if c == i {
        assert(j != c && sig_matches_at(region, sig, j));
    } else {
        assert(i != c && sig_matches_at(region, sig, i));
    }
}

/// A signature that matches at exactly one offset of a region makes the
/// scan return that offset.
pub proof fn lemma_single_match_gives_offset(region: Seq<u8>, sig: Seq<Option<u8>>, i: int)
    requires
        sig.len() > 0,
        sig_matches_at(region, sig, i),
        forall|j: int| #[trigger] sig_matches_at(region, sig, j) ==> j == i,
    ensures
        scan_outcome(region, sig) == Ok::<usize, ModuleSigScanError>(i as usize),
{
    let c = choose|c: int| sig_matches_at(region, sig, c);
    assert(c == i);
}

/// The bytes `pattern` stand in `region` from offset `i` on.
pub open spec fn occurs_at(region: Seq<u8>, pattern: Seq<u8>, i: int) -> bool {
    &&& 0 <= i
    &&& i + pattern.len() <= region.len()
    &&& region.subrange(i, i + pattern.len()) == pattern
}

/// The signature, without wildcards, that asks for exactly the bytes of
/// `pattern`.
pub open spec fn exact_signature(pattern: Seq<u8>) -> Seq<Option<u8>> {
    pattern.map_values(|b: u8| Some(b))
}

/// A signature without wildcards matches exactly where its bytes occur.
pub proof fn lemma_exact_signature_matches_occurrence(region: Seq<u8>, pattern: Seq<u8>, i: int)
    ensures
        sig_matches_at(region, exact_signature(pattern), i) <==> occurs_at(region, pattern, i),
{
    let sig = exact_signature(pattern);
    if sig_matches_at(region, sig, i) {
        assert forall|j: int| 0 <= j < pattern.len() implies region.subrange(i, i + pattern.len())[j] == pattern[j] by {
            assert(byte_matches(sig[j], region[i + j]));
        }
        assert(region.subrange(i, i + pattern.len()) =~= pattern);
    }
    if occurs_at(region, pattern, i) {
        assert forall|j: int| 0 <= j < sig.len() implies #[trigger] byte_matches(sig[j], region[i + j]) by {
            assert(region.subrange(i, i + pattern.len())[j] == pattern[j]);
        }
    }
}

/// Exact bytes that occur at exactly one offset of a region are found
/// there.
pub proof fn lemma_unique_exact_occurrence_found(region: Seq<u8>, pattern: Seq<u8>, i: int)
    requires
        pattern.len() > 0,
        occurs_at(region, pattern, i),
        forall|j: int| #[trigger] occurs_at(region, pattern, j) ==> j == i,
    ensures
        scan_outcome(region, exact_signature(pattern)) == Ok::<usize, ModuleSigScanError>(i as usize),
{
    let sig = exact_signature(pattern);
    lemma_exact_signature_matches_occurrence(region, pattern, i);
    assert forall|j: int| #[trigger] sig_matches_at(region, sig, j) implies j == i by {
        lemma_exact_signature_matches_occurrence(region, pattern, j);
    }
    lemma_single_match_gives_offset(region, sig, i);
}

/// A signature that matches nowhere in a region is not found there.
pub proof fn lemma_absent_signature_not_found(region: Seq<u8>, signature: Seq<Option<u8>>)
    requires
        signature.len() > 0,
        forall|i: int| !#[trigger] sig_matches_at(region, signature, i),
    ensures
        scan_outcome(region, signature) == Err::<usize, ModuleSigScanError>(ModuleSigScanError::NotFound),
{
}

/// `41 ?? 43` is found at offset 0 of the three bytes `41 x 43`, whatever
/// the middle byte `x` is.
pub proof fn lemma_wildcard_accepts_any_byte(x: u8)
    ensures
        scan_outcome(seq![0x41u8, x, 0x43u8], seq![Some(0x41u8), None, Some(0x43u8)])
            == Ok::<usize, ModuleSigScanError>(0),
{
    let region = seq![0x41u8, x, 0x43u8];
    let sig = seq![Some(0x41u8), None, Some(0x43u8)];
    assert(byte_matches(sig[0], region[0]));
    assert(byte_matches(sig[1], region[1]));
    assert(byte_matches(sig[2], region[2]));
    assert(sig_matches_at(region, sig, 0));
    assert forall|j: int| #[trigger] sig_matches_at(region, sig, j) implies j == 0 by {}
    lemma_single_match_gives_offset(region, sig, 0);
}

/// The signature of `k` wildcards.
pub open spec fn all_wildcards(k: nat) -> Seq<Option<u8>> {
    Seq::new(k, |_j: int| None::<u8>)
}

/// A signature of `k` wildcards, `k > 0`, is found at offset 0 of a region of
/// exactly `k` bytes, and is found more than once in any longer region.
pub proof fn lemma_all_wildcards(region: Seq<u8>, k: nat)
    requires
        k > 0,
        region.len() >= k,
    ensures
        region.len() == k ==> scan_outcome(region, all_wildcards(k)) == Ok::<usize, ModuleSigScanError>(0),
        region.len() > k ==> scan_outcome(region, all_wildcards(k))
            == Err::<usize, ModuleSigScanError>(ModuleSigScanError::MultipleFound),
{
    let sig = all_wildcards(k);
    assert forall|i: int| 0 <= i && i + k <= region.len() implies #[trigger] sig_matches_at(region, sig, i) by {
        assert forall|j: int| 0 <= j < sig.len() implies #[trigger] byte_matches(sig[j], region[i + j]) by {}
    }
    assert(sig_matches_at(region, sig, 0));
    if region.len() == k {
        assert forall|j: int| #[trigger] sig_matches_at(region, sig, j) implies j == 0 by {}
        lemma_single_match_gives_offset(region, sig, 0);
    } else {
        assert(sig_matches_at(region, sig, 1));
        lemma_two_matches_give_multiple(region, sig, 0, 1);
    }
}

} // verus!
