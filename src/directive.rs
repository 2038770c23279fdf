//! Recognising the plugin directive among configuration lines, and what the
//! configuration-line hook returns for it.
use vstd::prelude::*;
use crate::fields::{fields, split_fields, views, Separator};

verus! {

/// The directive keyword: `$` followed by the word with which the host's
/// configuration language reads in another file.
pub open spec fn directive_keyword() -> Seq<u8> {
    seq![36u8, 105u8, 110u8, 99u8, 108u8, 117u8, 100u8, 101u8]
}

/// The keyword that follows the directive keyword: `function`.
pub open spec fn plugin_keyword() -> Seq<u8> {
    seq![102u8, 117u8, 110u8, 99u8, 116u8, 105u8, 111u8, 110u8]
}

/// The white-space separated tokens of a line.
pub open spec fn tokens(line: Seq<u8>) -> Seq<Seq<u8>> {
    fields(line, Separator::Whitespace)
}

/// Token `i` of `t`, or the empty string where `t` has fewer.
pub open spec fn token(t: Seq<Seq<u8>>, i: int) -> Seq<u8> {
    if 0 <= i < t.len() {
        t[i]
    } else {
        Seq::empty()
    }
}

/// A line is a plugin directive when its first two tokens are the two keywords.
pub open spec fn is_directive(line: Seq<u8>) -> bool {
    let t = tokens(line);
    t.len() >= 2 && t[0] == directive_keyword() && t[1] == plugin_keyword()
}

/// The command name and path of a directive: its third and fourth tokens;
/// whatever follows them is ignored.
pub open spec fn directive_args(line: Seq<u8>) -> (Seq<u8>, Seq<u8>) {
    (token(tokens(line), 2), token(tokens(line), 3))
}

/// A plugin directive: the command to register and the path to load it from,
/// as the line wrote it (before home-directory expansion).
#[derive(Debug)]
pub struct Directive {
    pub name: Vec<u8>,
    pub path: Vec<u8>,
}

/// What the configuration-line hook does with a line.
#[derive(Debug)]
pub enum LineAction {
    /// Hand the line unchanged to the host's own parser and return its result.
    Forward,
    /// Expand the path, load the plugin and register it; the host's parser
    /// never sees the line.
    Load(Directive),
}

pub fn directive_keyword_bytes() -> (r: Vec<u8>)
    ensures
        r@ == directive_keyword(),
{
    let r: Vec<u8> = vec![36u8, 105u8, 110u8, 99u8, 108u8, 117u8, 100u8, 101u8];
    assert(r@ =~= directive_keyword());
    r
}

pub fn plugin_keyword_bytes() -> (r: Vec<u8>)
    ensures
        r@ == plugin_keyword(),
{
    let r: Vec<u8> = vec![102u8, 117u8, 110u8, 99u8, 116u8, 105u8, 111u8, 110u8];
    assert(r@ =~= plugin_keyword());
    r
}

pub fn bytes_equal(a: &[u8], b: &[u8]) -> (r: bool)
    ensures
        r == (a@ == b@),
{
    if a.len() != b.len() {
        return false;
    }
    let mut i: usize = 0;
    while i < a.len()
        invariant
            i <= a@.len(),
            a@.len() == b@.len(),
            forall|j: int| 0 <= j < i ==> a@[j] == b@[j],
        decreases a.len() - i,
    {
        if a[i] != b[i] {
            return false;
        }
        i = i + 1;
    }
    assert(a@ =~= b@);
    true
}

fn take_token(t: &mut Vec<Vec<u8>>, i: usize) -> (r: Vec<u8>)
    requires
        i < old(t)@.len(),
    ensures
        r@ == old(t)@[i as int]@,
        final(t)@.len() == old(t)@.len(),
        forall|j: int| 0 <= j < old(t)@.len() && j != i ==> final(t)@[j] == old(t)@[j],
{
    let mut r: Vec<u8> = Vec::new();
    std::mem::swap(&mut r, &mut t[i]);
    r
}

/// Decides what the configuration-line hook does with `line`: a line whose
/// first two tokens are the directive and plugin keywords loads the plugin
/// named by the next two tokens (empty where the line stops short); every
/// other line is forwarded as it is.
pub fn parse_line(line: &[u8]) -> (r: LineAction)
    ensures
        match r {
            LineAction::Forward => !is_directive(line@),
            LineAction::Load(d) => is_directive(line@) && (d.name@, d.path@) == directive_args(
                line@,
            ),
        },
{
    let mut t = split_fields(line, Separator::Whitespace);
    if t.len() < 2 {
        return LineAction::Forward;
    }
    let kw = directive_keyword_bytes();
    let pk = plugin_keyword_bytes();
    proof {
        assert(views(t@)[0] == t@[0]@);
        assert(views(t@)[1] == t@[1]@);
    }
    if !bytes_equal(t[0].as_slice(), kw.as_slice()) || !bytes_equal(t[1].as_slice(), pk.as_slice()) {
        return LineAction::Forward;
    }
    let ghost t0 = t@;
    let name = if t.len() > 2 {
        proof {
            assert(views(t@)[2] == t@[2]@);
        }
        take_token(&mut t, 2)
    } else {
        Vec::new()
    };
    let path = if t.len() > 3 {
        proof {
            assert(views(t0)[3] == t0[3]@);
        }
        take_token(&mut t, 3)
    } else {
        Vec::new()
    };
    proof {
        assert(name@ =~= directive_args(line@).0);
        assert(path@ =~= directive_args(line@).1);
    }
    LineAction::Load(Directive { name, path })
}

} // verus!
