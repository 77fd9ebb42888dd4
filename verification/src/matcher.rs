use vstd::prelude::*;

verus! {

use vstd::string::StrSliceExecFns;
use crate::dict::Dict;
use crate::method::Method;
use crate::strutil::{seg_views, spec_split, spec_trim_set, split_on, str_eq, trim_set};

/// Whether a template segment is a named-capture marker: it opens with `<`
/// and closes with `>`.
pub open spec fn is_capture(seg: Seq<char>) -> bool {
    seg.len() >= 1 && seg[0] == '<' && seg.last() == '>'
}

/// The parameter name of a capture segment: the marker text with all
/// leading and trailing `<`, then all leading and trailing `>`, removed.
pub open spec fn capture_key(seg: Seq<char>) -> Seq<char> {
    spec_trim_set(spec_trim_set(seg, seq!['<']), seq!['>'])
}

/// Whether a template's segments accept a request path's segments: the
/// counts are equal and every non-capture segment matches its counterpart
/// exactly.  Capture segments accept any value, the empty string included.
pub open spec fn template_matches(ts: Seq<Seq<char>>, ps: Seq<Seq<char>>) -> bool {
    &&& ts.len() == ps.len()
    &&& forall|i: int|
        0 <= i < ts.len() ==> (is_capture(#[trigger] ts[i]) || ts[i] == ps[i])
}

/// The parameters captured by the first `n` template segments, later
/// captures overriding earlier ones that reuse a name.
pub open spec fn captures_prefix(ts: Seq<Seq<char>>, ps: Seq<Seq<char>>, n: int) -> Map<
    Seq<char>,
    Seq<char>,
>
    decreases n,
{
    if n <= 0 {
        Map::<Seq<char>, Seq<char>>::empty()
    } else if is_capture(ts[n - 1]) {
        captures_prefix(ts, ps, n - 1).insert(capture_key(ts[n - 1]), ps[n - 1])
    } else {
        captures_prefix(ts, ps, n - 1)
    }
}

/// The parameters a template captures from a request path.
pub open spec fn captures_map(ts: Seq<Seq<char>>, ps: Seq<Seq<char>>) -> Map<
    Seq<char>,
    Seq<char>,
> {
    captures_prefix(ts, ps, ts.len() as int)
}

/// A registered route: a method, a `/`-delimited path template, and the
/// handler reference the caller registered for it.
///
/// The handler is opaque data to the routing core; dispatch selects it and
/// hands it back, and only the surrounding process invokes it.
pub struct Route<H> {
    pub method: Method,
    pub path: String,
    pub handler: H,
}

/// Whether `seg` is a capture marker.
fn is_capture_seg(seg: &str) -> (r: bool)
    ensures
        r == is_capture(seg@),
{
    let len = seg.unicode_len();
    if len == 0 {
        return false;
    }
    seg.get_char(0) == '<' && seg.get_char(len - 1) == '>'
}

/// The parameter name of a capture marker.
fn capture_key_of(seg: &str) -> (r: String)
    ensures
        r@ == capture_key(seg@),
{
    let open: Vec<char> = vec!['<'];
    let close: Vec<char> = vec!['>'];
    proof {
        assert(open@ =~= seq!['<']);
        assert(close@ =~= seq!['>']);
    }
    let inner = trim_set(seg, &open);
    trim_set(inner.as_str(), &close)
}

impl<H> Route<H> {
    /// Matches a request path against this route's template.
    ///
    /// Both the template and the path are split on `/` and walked pairwise:
    /// a capture segment binds its name to the path segment's literal text,
    /// accepting any value including the empty string, while every other
    /// segment must equal its counterpart exactly.  Differing segment
    /// counts never match.  On success the accumulated capture bindings are
    /// returned, an empty mapping for templates without captures.
    pub fn is_match(&self, request_path: &str) -> (r: Option<Dict>)
        ensures
            r is Some <==> template_matches(
                spec_split(self.path@, '/'),
                spec_split(request_path@, '/'),
            ),
            r matches Some(d) ==> d.wf() && d@ == captures_map(
                spec_split(self.path@, '/'),
                spec_split(request_path@, '/'),
            ),
    {
        let ghost ts = spec_split(self.path@, '/');
        let ghost ps = spec_split(request_path@, '/');
        let tsegs = split_on(self.path.as_str(), '/');
        let psegs = split_on(request_path, '/');
        if tsegs.len() != psegs.len() {
            return None;
        }
        let mut d = Dict::new();
        let mut i: usize = 0;
        while i < tsegs.len()
            invariant
                i <= tsegs@.len(),
                ts == spec_split(self.path@, '/'),
                ps == spec_split(request_path@, '/'),
                seg_views(tsegs@) == ts,
                seg_views(psegs@) == ps,
                ts.len() == ps.len(),
                tsegs@.len() == ts.len(),
                psegs@.len() == ps.len(),
                forall|j: int| 0 <= j < i ==> (is_capture(#[trigger] ts[j]) || ts[j] == ps[j]),
                d.wf(),
                d@ == captures_prefix(ts, ps, i as int),
            decreases tsegs@.len() - i,
        {
            let tseg = &tsegs[i];
            proof {
                assert(ts[i as int] == tseg@);
                assert(ps[i as int] == psegs@[i as int]@);
            }
            if is_capture_seg(tseg.as_str()) {
                let key = capture_key_of(tseg.as_str());
                let value = psegs[i].clone();
                d.insert(key, value);
            } else if !str_eq(tseg.as_str(), psegs[i].as_str()) {
                proof {
                    assert(!is_capture(ts[i as int]) && ts[i as int] != ps[i as int]);
                    assert(!template_matches(ts, ps)) by {
                        if template_matches(ts, ps) {
                            assert(is_capture(ts[i as int]) || ts[i as int] == ps[i as int]);
                        }
                    }
                }
                return None;
            }
            i += 1;
        }
        Some(d)
    }
}

} // verus!
