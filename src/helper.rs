use vstd::prelude::*;

verus! {

/// Errors of resolution and analysis.
#[derive(Clone, Copy, Debug, PartialEq, Eq, Structural)]
pub enum JopcallError {
    /// A byte pattern was not found.
    NoByteMatch,
    /// The bytes after a system-call prologue do not encode a service number.
    InvalidSSN,
    /// A structure or table lies, in part, outside the image.
    InvalidAddress,
    /// A scan found no gadget.
    NoGadget,
    /// A gadget chain is longer than a dispatch can lay out.
    OverMaxGadgets,
    /// No loaded module has the requested identifier.
    ModuleNotFound,
    /// No export of the module has the requested identifier.
    FunctionNotFound,
}

/// A counted UTF-16 string as the loader keeps it: lengths in bytes and the
/// address of its buffer.
#[derive(Clone, Copy, Debug)]
#[allow(non_camel_case_types)]
pub struct UNICODE_STRING {
    pub length: u16,
    pub maxlength: u16,
    pub buffer: usize,
}

/// `pattern` occurs in `source` at offset `i`.
pub open spec fn matches_at(source: Seq<u8>, pattern: Seq<u8>, i: int) -> bool {
    &&& 0 <= i
    &&& i + pattern.len() <= source.len()
    &&& source.subrange(i, i + pattern.len()) == pattern
}

/// `pattern` occurs in `source` at no offset in `start..end`.
pub open spec fn no_match_in(source: Seq<u8>, pattern: Seq<u8>, start: int, end: int) -> bool {
    forall|j: int| start <= j < end ==> !matches_at(source, pattern, j)
}

/// First offset at or after `pos` where `pattern` occurs in `source`.
pub open spec fn first_match_from(source: Seq<u8>, pattern: Seq<u8>, pos: int) -> Option<int>
    decreases source.len() - pos,
{
    if pattern.len() == 0 || pos < 0 || pos + pattern.len() > source.len() {
        None
    } else if matches_at(source, pattern, pos) {
        Some(pos)
    } else {
        first_match_from(source, pattern, pos + 1)
    }
}

/// First offset where `pattern` occurs in `source`.
pub open spec fn first_match(source: Seq<u8>, pattern: Seq<u8>) -> Option<int> {
    first_match_from(source, pattern, 0)
}

/// The first match from `pos` lies at or after `pos` and is a match.
pub proof fn lemma_first_match_found(source: Seq<u8>, pattern: Seq<u8>, pos: int)
    ensures
        first_match_from(source, pattern, pos) matches Some(i) ==> pos <= i && matches_at(
            source,
            pattern,
            i,
        ),
    decreases source.len() - pos,
{
    if !(pattern.len() == 0 || pos < 0 || pos + pattern.len() > source.len()) && !matches_at(
        source,
        pattern,
        pos,
    ) {
        lemma_first_match_found(source, pattern, pos + 1);
    }
}

/// Skipping offsets with no match does not change the first match.
pub proof fn lemma_first_match_skip(source: Seq<u8>, pattern: Seq<u8>, pos: int, i: int)
    requires
        pattern.len() > 0,
        0 <= pos <= i,
        no_match_in(source, pattern, pos, i),
    ensures
        first_match_from(source, pattern, pos) == first_match_from(source, pattern, i),
    decreases i - pos,
{
    if pos < i {
        lemma_first_match_skip(source, pattern, pos + 1, i);
    }
}

/// First offset at or after `start` where `pattern` occurs inside the window
/// `source[lo..hi]`, counted from `lo`.
pub fn find_in(pattern: &[u8], source: &[u8], lo: usize, hi: usize, start: usize) -> (r: Option<
    usize,
>)
    requires
        pattern@.len() > 0,
        lo <= hi <= source@.len(),
    ensures
        r matches Some(i) ==> start <= i && matches_at(source@.subrange(lo as int, hi as int), pattern@, i as int)
            && no_match_in(source@.subrange(lo as int, hi as int), pattern@, start as int, i as int),
        r is None ==> no_match_in(
            source@.subrange(lo as int, hi as int),
            pattern@,
            start as int,
            hi - lo,
        ),
{
    let ghost w = source@.subrange(lo as int, hi as int);
    let n = hi - lo;
    let m = pattern.len();
    if m > n || start > n - m {
        return None;
    }
    let mut i: usize = start;
    while i <= n - m
        invariant
            w == source@.subrange(lo as int, hi as int),
            lo <= hi <= source@.len(),
            n == hi - lo,
            m == pattern@.len(),
            m <= n,
            start <= i,
            no_match_in(w, pattern@, start as int, i as int),
        decreases n - i,
    {
        let mut k: usize = 0;
        while k < m && source[lo + i + k] == pattern[k]
            invariant
                w == source@.subrange(lo as int, hi as int),
                lo <= hi <= source@.len(),
                n == hi - lo,
                i + m <= n,
                k <= m,
                m == pattern@.len(),
                forall|t: int| 0 <= t < k ==> w[i + t] == pattern@[t],
            decreases m - k,
        {
            k = k + 1;
        }
        if k == m {
            assert(w.subrange(i as int, i + m) =~= pattern@);
            return Some(i);
        }
        assert(!matches_at(w, pattern@, i as int)) by {
            if matches_at(w, pattern@, i as int) {
                assert(w.subrange(i as int, i + m)[k as int] == w[i + k]);
            }
        }
        i = i + 1;
    }
    None
}

/// Offset of the first occurrence of `pattern` in `source`, or `NoByteMatch`.
pub fn search_bytes(pattern: &[u8], source: &[u8]) -> (r: Result<usize, JopcallError>)
    requires
        pattern@.len() > 0,
    ensures
        r == match first_match(source@, pattern@) {
            Some(i) => Ok::<usize, JopcallError>(i as usize),
            None => Err(JopcallError::NoByteMatch),
        },
        r matches Ok(i) ==> matches_at(source@, pattern@, i as int) && no_match_in(
            source@,
            pattern@,
            0,
            i as int,
        ),
        r matches Err(e) ==> e == JopcallError::NoByteMatch && no_match_in(
            source@,
            pattern@,
            0,
            source@.len() as int,
        ),
{
    let r = find_in(pattern, source, 0, source.len(), 0);
    assert(source@.subrange(0, source@.len() as int) =~= source@);
    match r {
        Some(i) => {
            proof {
                lemma_first_match_skip(source@, pattern@, 0, i as int);
            }
            Ok(i)
        },
        None => {
            proof {
                lemma_first_match_skip(source@, pattern@, 0, source@.len() as int);
            }
            Err(JopcallError::NoByteMatch)
        },
    }
}

/// The item of `slice` that a random `seed` selects: the one at `seed` modulo
/// the length.
pub fn pick_random<T: Copy>(slice: &[T], seed: u32) -> (r: T)
    requires
        slice@.len() > 0,
    ensures
        r == slice@[(seed as int) % (slice@.len() as int)],
{
    slice[(seed as usize) % slice.len()]
}

} // verus!
