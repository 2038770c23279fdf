//! Splitting byte strings into the non-empty fields between separators.
use vstd::prelude::*;

verus! {

/// Which bytes separate two fields.
#[derive(Clone, Copy, PartialEq, Eq, Debug)]
pub enum Separator {
    /// The `:` that joins the paths of a plugin list.
    Colon,
    /// ASCII white space: space, tab, line feed, vertical tab, form feed, carriage return.
    Whitespace,
}

pub open spec fn is_separator(kind: Separator, b: u8) -> bool {
    match kind {
        Separator::Colon => b == 58u8,
        Separator::Whitespace => b == 32u8 || (9u8 <= b && b <= 13u8),
    }
}

/// The pieces of `s` between separators, in order, empty ones included
/// (so one more than the number of separators).
pub open spec fn pieces(s: Seq<u8>, kind: Separator) -> Seq<Seq<u8>>
    decreases s.len(),
{
    if s.len() == 0 {
        seq![Seq::empty()]
    } else {
        let prev = pieces(s.drop_last(), kind);
        if is_separator(kind, s.last()) {
            prev.push(Seq::empty())
        } else {
            prev.update(prev.len() - 1, prev.last().push(s.last()))
        }
    }
}

/// The contents of each byte vector of `v`.
pub open spec fn views(v: Seq<Vec<u8>>) -> Seq<Seq<u8>> {
    v.map_values(|x: Vec<u8>| x@)
}

pub open spec fn keep_non_empty(ps: Seq<Seq<u8>>) -> Seq<Seq<u8>> {
    ps.filter(|p: Seq<u8>| p.len() > 0)
}

/// The non-empty pieces of `s`, in order.
pub open spec fn fields(s: Seq<u8>, kind: Separator) -> Seq<Seq<u8>> {
    keep_non_empty(pieces(s, kind))
}

pub proof fn lemma_pieces_non_empty(s: Seq<u8>, kind: Separator)
    ensures
        pieces(s, kind).len() >= 1,
    decreases s.len(),
{
    if s.len() > 0 {
        lemma_pieces_non_empty(s.drop_last(), kind);
    }
}

proof fn lemma_keep_push(ps: Seq<Seq<u8>>, p: Seq<u8>)
    ensures
        keep_non_empty(ps.push(p)) == (if p.len() > 0 {
            keep_non_empty(ps).push(p)
        } else {
            keep_non_empty(ps)
        }),
{
    reveal(Seq::filter);
    assert(ps.push(p).drop_last() =~= ps);
}

proof fn lemma_keep_add(a: Seq<Seq<u8>>, b: Seq<Seq<u8>>)
    ensures
        keep_non_empty(a + b) == keep_non_empty(a) + keep_non_empty(b),
    decreases b.len(),
{
    if b.len() == 0 {
        reveal(Seq::filter);
        assert(a + b =~= a);
        assert(keep_non_empty(a) + keep_non_empty(b) =~= keep_non_empty(a));
    } else {
        lemma_keep_add(a, b.drop_last());
        assert(a + b =~= (a + b.drop_last()).push(b.last()));
        assert(b =~= b.drop_last().push(b.last()));
        lemma_keep_push(a + b.drop_last(), b.last());
        lemma_keep_push(b.drop_last(), b.last());
        assert(keep_non_empty(a + b) =~= keep_non_empty(a) + keep_non_empty(b));
    }
}

proof fn lemma_pieces_concat(x: Seq<u8>, sep: u8, y: Seq<u8>, kind: Separator)
    requires
        is_separator(kind, sep),
    ensures
        pieces(x.push(sep) + y, kind) == pieces(x, kind) + pieces(y, kind),
    decreases y.len(),
{
    let t = x.push(sep) + y;
    if y.len() == 0 {
        assert(t =~= x.push(sep));
        assert(x.push(sep).drop_last() =~= x);
        assert(pieces(t, kind) =~= pieces(x, kind) + pieces(y, kind));
    } else {
        assert(t.drop_last() =~= x.push(sep) + y.drop_last());
        assert(t.last() == y.last());
        lemma_pieces_concat(x, sep, y.drop_last(), kind);
        lemma_pieces_non_empty(y.drop_last(), kind);
        assert(pieces(t, kind) =~= pieces(x, kind) + pieces(y, kind));
    }
}

/// A separator closes every field before it: the fields of `x`, then a
/// separator, then `y`, are the fields of `x` followed by those of `y`,
/// whatever either holds.
pub proof fn lemma_fields_concat(x: Seq<u8>, sep: u8, y: Seq<u8>, kind: Separator)
    requires
        is_separator(kind, sep),
    ensures
        fields(x.push(sep) + y, kind) == fields(x, kind) + fields(y, kind),
{
    lemma_pieces_concat(x, sep, y, kind);
    lemma_keep_add(pieces(x, kind), pieces(y, kind));
}

/// A string without separators is one field, or none where it is empty.
pub proof fn lemma_fields_single(s: Seq<u8>, kind: Separator)
    requires
        forall|i: int| 0 <= i < s.len() ==> !is_separator(kind, #[trigger] s[i]),
    ensures
        fields(s, kind) == (if s.len() > 0 {
            seq![s]
        } else {
            Seq::<Seq<u8>>::empty()
        }),
{
    lemma_pieces_single(s, kind);
    reveal(Seq::filter);
    assert(seq![s].drop_last() =~= Seq::<Seq<u8>>::empty());
    assert(Seq::<Seq<u8>>::empty().filter(|p: Seq<u8>| p.len() > 0) =~= Seq::<Seq<u8>>::empty());
    if s.len() > 0 {
        assert(fields(s, kind) =~= seq![s]);
    } else {
        assert(fields(s, kind) =~= Seq::<Seq<u8>>::empty());
    }
}

proof fn lemma_pieces_single(s: Seq<u8>, kind: Separator)
    requires
        forall|i: int| 0 <= i < s.len() ==> !is_separator(kind, #[trigger] s[i]),
    ensures
        pieces(s, kind) == seq![s],
    decreases s.len(),
{
    if s.len() == 0 {
        assert(s =~= Seq::<u8>::empty());
    } else {
        assert forall|i: int| 0 <= i < s.drop_last().len() implies !is_separator(
            kind,
            #[trigger] s.drop_last()[i],
        ) by {
            assert(s.drop_last()[i] == s[i]);
        }
        lemma_pieces_single(s.drop_last(), kind);
        assert(!is_separator(kind, s[s.len() - 1]));
        assert(s.drop_last().push(s.last()) =~= s);
        assert(pieces(s, kind) =~= seq![s]);
    }
}

pub fn is_separator_byte(kind: Separator, b: u8) -> (r: bool)
    ensures
        r == is_separator(kind, b),
{
    match kind {
        Separator::Colon => b == 58u8,
        Separator::Whitespace => b == 32u8 || (9u8 <= b && b <= 13u8),
    }
}

/// Splits `s` at every separator byte of `kind` and keeps the non-empty pieces.
pub fn split_fields(s: &[u8], kind: Separator) -> (r: Vec<Vec<u8>>)
    ensures
        views(r@) == fields(s@, kind),
{
    let mut out: Vec<Vec<u8>> = Vec::new();
    let mut cur: Vec<u8> = Vec::new();
    let mut i: usize = 0;
    proof {
        assert(s@.take(0) =~= Seq::<u8>::empty());
        reveal(Seq::filter);
    }
    while i < s.len()
        invariant
            i <= s@.len(),
            pieces(s@.take(i as int), kind).len() >= 1,
            cur@ == pieces(s@.take(i as int), kind).last(),
            views(out@) == keep_non_empty(pieces(s@.take(i as int), kind).drop_last()),
        decreases s.len() - i,
    {
        let b = s[i];
        let ghost prev = pieces(s@.take(i as int), kind);
        proof {
            assert(s@.take(i as int + 1).drop_last() =~= s@.take(i as int));
            assert(s@.take(i as int + 1).last() == b);
        }
        if is_separator_byte(kind, b) {
            proof {
                lemma_keep_push(prev.drop_last(), prev.last());
                assert(prev.drop_last().push(prev.last()) =~= prev);
                assert(pieces(s@.take(i as int + 1), kind).drop_last() =~= prev);
            }
            if cur.len() > 0 {
                let piece = cur;
                let ghost before = out@;
                out.push(piece);
                proof {
                    assert(out@ == before.push(piece));
                    assert(views(out@) =~= views(before).push(piece@));
                }
                cur = Vec::new();
            } else {
                cur = Vec::new();
            }
            proof {
                assert(views(out@) =~= keep_non_empty(prev));
            }
        } else {
            cur.push(b);
            proof {
                assert(pieces(s@.take(i as int + 1), kind).drop_last() =~= prev.drop_last());
            }
        }
        i = i + 1;
    }
    proof {
        assert(s@.take(i as int) =~= s@);
        let ps = pieces(s@, kind);
        lemma_keep_push(ps.drop_last(), ps.last());
        assert(ps.drop_last().push(ps.last()) =~= ps);
    }
    let ghost before = out@;
    let ghost last = cur@;
    if cur.len() > 0 {
        out.push(cur);
        proof {
            assert(views(out@) =~= views(before).push(last));
        }
    }
    proof {
        assert(views(out@) =~= fields(s@, kind));
    }
    out
}

} // verus!
