use vstd::prelude::*;

verus! {

/// The slash byte `/` that separates the segments of an asset path.
pub const SLASH: u8 = 47;

/// Every byte of `p` stands in `s` beginning at position `i`.
pub open spec fn starts_with_at(s: Seq<u8>, i: int, p: Seq<u8>) -> bool {
    &&& 0 <= i
    &&& i + p.len() <= s.len()
    &&& forall|k: int| 0 <= k < p.len() ==> s[i + k] == p[k]
}

/// Appends every byte of `src` to `out`, in order.
pub fn push_all(out: &mut Vec<u8>, src: &Vec<u8>)
    ensures
        final(out)@ == old(out)@ + src@,
{
    let mut k: usize = 0;
    while k < src.len()
        invariant
            k <= src@.len(),
            out@ == old(out)@ + src@.subrange(0, k as int),
        decreases src@.len() - k,
    {
        out.push(src[k]);
        proof {
            assert(old(out)@ + src@.subrange(0, k + 1) =~= (old(out)@ + src@.subrange(
                0,
                k as int,
            )).push(src@[k as int]));
        }
        k = k + 1;
    }
    proof {
        assert(src@.subrange(0, src@.len() as int) =~= src@);
    }
}

/// Appends the bytes of `s` from `i` (inclusive) to `e` (exclusive) to `out`.
pub fn push_range(out: &mut Vec<u8>, s: &Vec<u8>, i: usize, e: usize)
    requires
        i <= e <= s@.len(),
    ensures
        final(out)@ == old(out)@ + s@.subrange(i as int, e as int),
{
    let mut k: usize = i;
    while k < e
        invariant
            i <= k <= e <= s@.len(),
            out@ == old(out)@ + s@.subrange(i as int, k as int),
        decreases e - k,
    {
        out.push(s[k]);
        proof {
            assert(old(out)@ + s@.subrange(i as int, k + 1) =~= (old(out)@ + s@.subrange(
                i as int,
                k as int,
            )).push(s@[k as int]));
        }
        k = k + 1;
    }
}

/// Tells whether the bytes of `s` from `i` (inclusive) to `e` (exclusive)
/// are exactly the bytes of `lit`.
pub fn range_eq(s: &Vec<u8>, i: usize, e: usize, lit: &Vec<u8>) -> (r: bool)
    requires
        i <= e <= s@.len(),
    ensures
        r == (s@.subrange(i as int, e as int) == lit@),
{
    if e - i != lit.len() {
        proof {
            assert(s@.subrange(i as int, e as int).len() == e - i);
        }
        return false;
    }
    let mut k: usize = 0;
    while k < lit.len()
        invariant
            i <= e <= s@.len(),
            e - i == lit@.len(),
            k <= lit@.len(),
            forall|j: int| 0 <= j < k ==> s@[i + j] == lit@[j],
        decreases lit@.len() - k,
    {
        if s[i + k] != lit[k] {
            proof {
                assert(s@.subrange(i as int, e as int)[k as int] == s@[i + k]);
            }
            return false;
        }
        k = k + 1;
    }
    proof {
        assert(s@.subrange(i as int, e as int) =~= lit@);
    }
    true
}

/// The file name of a path: the bytes after the last `/`, or the whole
/// path when it holds no `/`.
pub open spec fn basename_of(s: Seq<u8>) -> Seq<u8>
    decreases s.len(),
{
    if s.len() == 0 {
        Seq::empty()
    } else if s[s.len() - 1] == SLASH {
        Seq::empty()
    } else {
        basename_of(s.drop_last()).push(s[s.len() - 1])
    }
}

/// The segment of `path` after its last `/` (the whole path when there is
/// none), the name under which a downloaded asset is stored locally.
pub fn basename(path: &Vec<u8>) -> (name: Vec<u8>)
    ensures
        name@ == basename_of(path@),
{
    let mut name: Vec<u8> = Vec::new();
    let mut i: usize = 0;
    while i < path.len()
        invariant
            i <= path@.len(),
            name@ == basename_of(path@.subrange(0, i as int)),
        decreases path@.len() - i,
    {
        if path[i] == SLASH {
            name = Vec::new();
        } else {
            name.push(path[i]);
        }
        proof {
            let pre = path@.subrange(0, i as int);
            let pre1 = path@.subrange(0, i + 1);
            assert(pre1.drop_last() =~= pre);
            assert(pre1[pre1.len() - 1] == path@[i as int]);
        }
        i = i + 1;
    }
    proof {
        assert(path@.subrange(0, path@.len() as int) =~= path@);
    }
    name
}

} // verus!
