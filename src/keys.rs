use vstd::prelude::*;

verus! {

/// Which chain of a wallet descriptor a key belongs to.
#[derive(Debug, Clone, Copy, PartialEq, Eq, Structural)]
pub enum KeychainKind {
    External,
    Internal,
}

/// Where a key comes from: the fingerprint of a master key and the full path of
/// child numbers below it (hardened numbers carry the top bit).
#[derive(Debug, Clone, PartialEq, Eq)]
pub struct KeySource {
    pub fingerprint: u32,
    pub path: Vec<u32>,
}

/// A wallet-held extended public key: its own fingerprint, the origin it was
/// imported with (if any), the path below that origin, and whether a wildcard
/// (one placeholder index at the end of the path, resolved per use) follows.
#[derive(Debug, Clone, PartialEq, Eq)]
pub struct ExtendedKey {
    pub key_fingerprint: u32,
    pub origin: Option<KeySource>,
    pub path: Vec<u32>,
    pub wildcard: bool,
}

/// The fingerprint that a key source is compared against.
pub open spec fn compare_fingerprint(k: ExtendedKey) -> u32 {
    match k.origin {
        Some(o) => o.fingerprint,
        None => k.key_fingerprint,
    }
}

/// The path that a key source is compared against.
pub open spec fn compare_path(k: ExtendedKey) -> Seq<u32> {
    match k.origin {
        Some(o) => o.path@ + k.path@,
        None => k.path@,
    }
}

/// A recorded path with its last element dropped when the key has a wildcard.
pub open spec fn trimmed_path(k: ExtendedKey, path: Seq<u32>) -> Seq<u32> {
    if k.wildcard && path.len() > 0 {
        path.drop_last()
    } else {
        path
    }
}

/// Whether a key source recorded on an input denotes the extended key.
pub open spec fn key_matches(k: ExtendedKey, src: KeySource) -> bool {
    src.fingerprint == compare_fingerprint(k) && compare_path(k) == trimmed_path(k, src.path@)
}

/// Compares two sequences of child numbers.
pub fn paths_equal(a: &[u32], b: &[u32]) -> (r: bool)
    ensures
        r == (a@ == b@),
{
    if a.len() != b.len() {
        return false;
    }
    let mut i: usize = 0;
    while i < a.len()
        invariant
            a.len() == b.len(),
            i <= a.len(),
            forall|j: int| 0 <= j < i ==> a@[j] == b@[j],
        decreases a.len() - i,
    {
        if a[i] != b[i] {
            return false;
        }
        i = i + 1;
    }
    assert(a@ =~= b@);
    true
}

/// Decides whether `keysource` denotes `xpub`; on a match returns the recorded
/// path, without its last element when the key has a wildcard.
pub fn xpub_matches(xpub: &ExtendedKey, keysource: &KeySource) -> (r: Option<Vec<u32>>)
    ensures
        r.is_some() == key_matches(*xpub, *keysource),
        r.is_some() ==> r.unwrap()@ == trimmed_path(*xpub, keysource.path@),
{
    let mut cmp_path: Vec<u32> = Vec::new();
    let cmp_fingerprint: u32 = match &xpub.origin {
        Some(o) => {
            let mut i: usize = 0;
            while i < o.path.len()
                invariant
                    i <= o.path.len(),
                    cmp_path@ == o.path@.subrange(0, i as int),
                decreases o.path.len() - i,
            {
                cmp_path.push(o.path[i]);
                i = i + 1;
            }
            o.fingerprint
        },
        None => xpub.key_fingerprint,
    };
    let ghost base = cmp_path@;
    let mut i: usize = 0;
    while i < xpub.path.len()
        invariant
            i <= xpub.path.len(),
            cmp_path@ == base + xpub.path@.subrange(0, i as int),
        decreases xpub.path.len() - i,
    {
        cmp_path.push(xpub.path[i]);
        i = i + 1;
    }
    proof {
        assert(xpub.path@.subrange(0, xpub.path@.len() as int) =~= xpub.path@);
        match &xpub.origin {
            Some(o) => {
                assert(o.path@.subrange(0, o.path@.len() as int) =~= o.path@);
            },
            None => {
                assert(base =~= Seq::<u32>::empty());
            },
        }
        assert(cmp_path@ =~= compare_path(*xpub));
    }
    let src = &keysource.path;
    let keep: usize = if xpub.wildcard && src.len() > 0 {
        src.len() - 1
    } else {
        src.len()
    };
    let mut trimmed: Vec<u32> = Vec::new();
    let mut j: usize = 0;
    while j < keep
        invariant
            keep <= src.len(),
            j <= keep,
            trimmed@ == src@.subrange(0, j as int),
        decreases keep - j,
    {
        trimmed.push(src[j]);
        j = j + 1;
    }
    assert(trimmed@ =~= trimmed_path(*xpub, src@));
    if cmp_fingerprint == keysource.fingerprint && paths_equal(cmp_path.as_slice(), trimmed.as_slice()) {
        Some(trimmed)
    } else {
        None
    }
}

/// A key source built from an extended key's origin and relative path, plus one
/// trailing index exactly when the key has a wildcard, matches that key exactly
/// when its fingerprint is the key's comparison fingerprint.
pub proof fn lemma_match_correct(k: ExtendedKey, idx: u32)
    ensures
        ({
            let full = if k.wildcard {
                compare_path(k).push(idx)
            } else {
                compare_path(k)
            };
            forall|src: KeySource| src.path@ == full ==>
                (key_matches(k, src) <==> src.fingerprint == compare_fingerprint(k))
        }),
{
    let full = if k.wildcard {
        compare_path(k).push(idx)
    } else {
        compare_path(k)
    };
    if k.wildcard {
        assert(full.drop_last() =~= compare_path(k));
    }
}

} // verus!
