//! The plugins that a `:`-separated path list asks for.
use vstd::prelude::*;
use crate::fields::{fields, is_separator, split_fields, views, lemma_fields_concat, lemma_fields_single, Separator};
use crate::stem::{command_name, copy_range, file_stem};

verus! {

/// One plugin to load: the command name it is registered under and the
/// path of its shared object.
#[derive(Debug)]
pub struct PluginRequest {
    pub name: Vec<u8>,
    pub path: Vec<u8>,
}

impl PluginRequest {
    pub open spec fn view(self) -> (Seq<u8>, Seq<u8>) {
        (self.name@, self.path@)
    }
}

/// The request for one path: named by the path's file stem.
pub open spec fn request_for(path: Seq<u8>) -> (Seq<u8>, Seq<u8>) {
    (file_stem(path), path)
}

pub open spec fn request_views(r: Seq<PluginRequest>) -> Seq<(Seq<u8>, Seq<u8>)> {
    r.map_values(|q: PluginRequest| q.view())
}

/// One request for each non-empty segment of `list`, in order.
pub open spec fn requests_for(list: Seq<u8>) -> Seq<(Seq<u8>, Seq<u8>)> {
    fields(list, Separator::Colon).map_values(|seg: Seq<u8>| request_for(seg))
}

/// The plugins named by a plugin path list: each non-empty segment between
/// `:` separators is a path, and the plugin is registered under that path's
/// file stem.
pub fn plugin_requests(list: &[u8]) -> (r: Vec<PluginRequest>)
    ensures
        request_views(r@) == requests_for(list@),
{
    let segments = split_fields(list, Separator::Colon);
    let mut out: Vec<PluginRequest> = Vec::new();
    let mut i: usize = 0;
    while i < segments.len()
        invariant
            i <= segments@.len(),
            views(segments@) == fields(list@, Separator::Colon),
            request_views(out@) == requests_for(list@).take(i as int),
        decreases segments.len() - i,
    {
        let segment = segments[i].as_slice();
        let path = copy_range(segment, 0, segment.len());
        let name = command_name(path.as_slice());
        let ghost before = out@;
        proof {
            assert(views(segments@)[i as int] == segments@[i as int]@);
            assert(path@ =~= segments@[i as int]@);
        }
        let req = PluginRequest { name, path };
        proof {
            assert(fields(list@, Separator::Colon)[i as int] == path@);
            assert(req.view() == requests_for(list@)[i as int]);
        }
        out.push(req);
        proof {
            assert(request_views(out@) =~= request_views(before).push(req.view()));
            assert(request_views(out@) =~= requests_for(list@).take(i as int + 1));
        }
        i = i + 1;
    }
    proof {
        assert(requests_for(list@).take(i as int) =~= requests_for(list@));
    }
    out
}

/// Each segment of a plugin list is asked for on its own: whatever a
/// segment holds (a path that does not exist, one that is no shared object),
/// the segments around it give the same requests as they would alone, and it
/// gives one request of its own where it is not empty.
pub proof fn lemma_segments_independent(before: Seq<u8>, segment: Seq<u8>, after: Seq<u8>)
    requires
        forall|i: int|
            0 <= i < segment.len() ==> !is_separator(Separator::Colon, #[trigger] segment[i]),
    ensures
        requests_for(before.push(58u8) + segment.push(58u8) + after) == requests_for(before) + (
        if segment.len() > 0 {
            seq![request_for(segment)]
        } else {
            Seq::empty()
        }) + requests_for(after),
{
    let c = Separator::Colon;
    let rest = segment.push(58u8) + after;
    assert(before.push(58u8) + segment.push(58u8) + after =~= before.push(58u8) + rest);
    lemma_fields_concat(before, 58u8, rest, c);
    lemma_fields_concat(segment, 58u8, after, c);
    lemma_fields_single(segment, c);
    assert(requests_for(before.push(58u8) + segment.push(58u8) + after) =~= requests_for(before)
        + (if segment.len() > 0 {
        seq![request_for(segment)]
    } else {
        Seq::empty()
    }) + requests_for(after));
}

} // verus!
