//! The command name of a plugin: the file stem of its path.
use vstd::prelude::*;

verus! {

pub open spec fn slash() -> u8 {
    47u8
}

pub open spec fn dot() -> u8 {
    46u8
}

/// The index of the last `b` in `s`, or -1 where `s` holds none.
pub open spec fn last_index(s: Seq<u8>, b: u8) -> int
    decreases s.len(),
{
    if s.len() == 0 {
        -1
    } else if s.last() == b {
        s.len() - 1
    } else {
        last_index(s.drop_last(), b)
    }
}

/// What follows the last `/` of `p` (all of `p` where it has none).
pub open spec fn file_name(p: Seq<u8>) -> Seq<u8> {
    p.subrange(last_index(p, slash()) + 1, p.len() as int)
}

/// A file name without its extension: what stands before its last `.`,
/// unless that dot opens the name (`.profile` keeps its dot).
pub open spec fn stem_of(name: Seq<u8>) -> Seq<u8> {
    if last_index(name, dot()) > 0 {
        name.take(last_index(name, dot()))
    } else {
        name
    }
}

pub open spec fn file_stem(p: Seq<u8>) -> Seq<u8> {
    stem_of(file_name(p))
}

pub proof fn lemma_last_index(s: Seq<u8>, b: u8)
    ensures
        -1 <= last_index(s, b) < s.len(),
        last_index(s, b) >= 0 ==> s[last_index(s, b)] == b,
        forall|j: int| last_index(s, b) < j < s.len() ==> s[j] != b,
    decreases s.len(),
{
    if s.len() > 0 {
        lemma_last_index(s.drop_last(), b);
        assert forall|j: int| last_index(s, b) < j < s.len() implies s[j] != b by {
            if j < s.len() - 1 {
                assert(s.drop_last()[j] == s[j]);
            }
        }
    }
}

/// Finds the last `b` in `s`.
pub fn find_last(s: &[u8], b: u8) -> (r: Option<usize>)
    ensures
        match r {
            Some(i) => i == last_index(s@, b),
            None => last_index(s@, b) == -1,
        },
{
    let mut i: usize = s.len();
    proof {
        assert(s@.take(i as int) =~= s@);
    }
    while i > 0
        invariant
            i <= s@.len(),
            last_index(s@, b) == last_index(s@.take(i as int), b),
        decreases i,
    {
        proof {
            assert(s@.take(i as int).drop_last() =~= s@.take(i as int - 1));
        }
        if s[i - 1] == b {
            return Some(i - 1);
        }
        i = i - 1;
    }
    None
}

/// A copy of `s[lo..hi]`.
pub fn copy_range(s: &[u8], lo: usize, hi: usize) -> (r: Vec<u8>)
    requires
        lo <= hi <= s@.len(),
    ensures
        r@ == s@.subrange(lo as int, hi as int),
{
    let mut out: Vec<u8> = Vec::new();
    let mut i: usize = lo;
    while i < hi
        invariant
            lo <= i <= hi,
            hi <= s@.len(),
            out@ == s@.subrange(lo as int, i as int),
        decreases hi - i,
    {
        out.push(s[i]);
        proof {
            assert(out@ =~= s@.subrange(lo as int, i as int + 1));
        }
        i = i + 1;
    }
    out
}

/// The command name under which the plugin at `path` is registered: the
/// last component of the path with its extension stripped
/// (`/plugins/foo.so` gives `foo`).
pub fn command_name(path: &[u8]) -> (r: Vec<u8>)
    ensures
        r@ == file_stem(path@),
{
    proof {
        lemma_last_index(path@, slash());
    }
    let start: usize = match find_last(path, 47u8) {
        Some(i) => {
            assert(i < path.len());
            i + 1
        },
        None => 0,
    };
    let name = copy_range(path, start, path.len());
    match find_last(name.as_slice(), 46u8) {
        Some(d) => {
            if d > 0 {
                proof {
                    lemma_last_index(name@, dot());
                }
                copy_range(name.as_slice(), 0, d)
            } else {
                name
            }
        },
        None => name,
    }
}

} // verus!
