use vstd::prelude::*;

verus! {

use vstd::string::StrSliceExecFns;
use vstd::string::StringExecFns;
use crate::dict::Dict;
use crate::http::{HttpResponse, STATUS_OK};
use crate::strutil::{lemma_split_nonempty, seg_views, spec_split, split_on, str_eq};

/// `p` with one leading `/` removed, if it has one.
pub open spec fn strip_leading_slash(p: Seq<char>) -> Seq<char> {
    if p.len() >= 1 && p[0] == '/' {
        p.drop_first()
    } else {
        p
    }
}

/// The file path a request path resolves to under a base directory: the
/// request path with one leading separator stripped, joined onto the
/// directory with a `/` unless the directory is empty or already ends in
/// one.
pub open spec fn spec_static_path(dir: Seq<char>, p: Seq<char>) -> Seq<char> {
    let rel = strip_leading_slash(p);
    if dir.len() == 0 {
        rel
    } else if dir.last() == '/' {
        dir + rel
    } else {
        dir + seq!['/'] + rel
    }
}

/// Whether a request path tries to climb out of the base directory: any
/// of its segments is `..`.  Such a request is treated as asking for an
/// absent file.
pub open spec fn escapes_base(p: Seq<char>) -> bool {
    spec_split(strip_leading_slash(p), '/').contains(".."@)
}

/// The text after the last `.` of `s`, or `None` when `s` has no `.`.
pub open spec fn after_last_dot(s: Seq<char>) -> Option<Seq<char>>
    decreases s.len(),
{
    if s.len() == 0 {
        None
    } else if s.last() == '.' {
        Some(Seq::<char>::empty())
    } else {
        match after_last_dot(s.drop_last()) {
            Some(e) => Some(e.push(s.last())),
            None => None,
        }
    }
}

/// The file extension of a request path, without the dot: in the last
/// `/`-segment, the text after the last `.`, or the empty string when
/// that segment has no `.` past its first character.
pub open spec fn spec_extension(p: Seq<char>) -> Seq<char> {
    let name = spec_split(p, '/').last();
    match after_last_dot(name) {
        Some(e) => if e.len() < name.len() - 1 {
            e
        } else {
            Seq::<char>::empty()
        },
        None => Seq::<char>::empty(),
    }
}

/// The content type a static response carries: the MIME table's entry for
/// the request path's extension, or the generic binary type when the
/// table has none.
pub open spec fn static_content_type(p: Seq<char>, mime: Map<Seq<char>, Seq<char>>) -> Seq<
    char,
> {
    if mime.contains_key(spec_extension(p)) {
        mime[spec_extension(p)]
    } else {
        "application/octet-stream"@
    }
}

/// What `static_response` promises of a response built for `p` from file
/// bytes `content` under MIME table `mime`.
pub open spec fn is_static_response_for(
    r: HttpResponse,
    p: Seq<char>,
    content: Seq<u8>,
    mime: Map<Seq<char>, Seq<char>>,
) -> bool {
    &&& r.status == STATUS_OK
    &&& r.content_type@ == static_content_type(p, mime)
    &&& r.body@ == content
}

proof fn lemma_after_last_dot_at(s: Seq<char>, i: int)
    requires
        0 <= i < s.len(),
        s[i] == '.',
        forall|k: int| i < k < s.len() ==> s[k] != '.',
    ensures
        after_last_dot(s) == Some(s.subrange(i + 1, s.len() as int)),
    decreases s.len(),
{
    if i == s.len() - 1 {
        assert(s.subrange(i + 1, s.len() as int) =~= Seq::<char>::empty());
    } else {
        assert(s.last() != '.');
        lemma_after_last_dot_at(s.drop_last(), i);
        assert(s.drop_last().subrange(i + 1, s.len() - 1).push(s.last()) =~= s.subrange(
            i + 1,
            s.len() as int,
        ));
    }
}

proof fn lemma_after_last_dot_none(s: Seq<char>)
    requires
        forall|k: int| 0 <= k < s.len() ==> s[k] != '.',
    ensures
        after_last_dot(s) is None,
    decreases s.len(),
{
    if s.len() == 0 {
    } else {
        lemma_after_last_dot_none(s.drop_last());
    }
}

/// The extension of a request path, as `spec_extension` defines it.
pub fn extension_of(request_path: &str) -> (r: String)
    ensures
        r@ == spec_extension(request_path@),
{
    proof {
        lemma_split_nonempty(request_path@, '/');
    }
    let segs = split_on(request_path, '/');
    let name = &segs[segs.len() - 1];
    proof {
        assert(name@ == spec_split(request_path@, '/').last());
    }
    let nlen = name.as_str().unicode_len();
    let mut j: usize = nlen;
    while j > 0 && name.as_str().get_char(j - 1) != '.'
        invariant
            j <= nlen,
            nlen == name@.len(),
            forall|k: int| j <= k < nlen ==> name@[k] != '.',
        decreases j,
    {
        j -= 1;
    }
    if j == 0 {
        proof {
            lemma_after_last_dot_none(name@);
        }
        return String::new();
    }
    proof {
        lemma_after_last_dot_at(name@, j - 1);
    }
    if j == 1 {
        return String::new();
    }
    let ext = name.as_str().substring_char(j, nlen);
    String::from_str(ext)
}

/// Whether a request path escapes the base directory, as `escapes_base`
/// defines it.
pub fn path_escapes(request_path: &str) -> (r: bool)
    ensures
        r == escapes_base(request_path@),
{
    let plen = request_path.unicode_len();
    let rel: &str = if plen >= 1 && request_path.get_char(0) == '/' {
        request_path.substring_char(1, plen)
    } else {
        request_path
    };
    proof {
        assert(rel@ == strip_leading_slash(request_path@));
    }
    let segs = split_on(rel, '/');
    let ghost sv = spec_split(rel@, '/');
    let mut i: usize = 0;
    while i < segs.len()
        invariant
            i <= segs@.len(),
            rel@ == strip_leading_slash(request_path@),
            sv == spec_split(rel@, '/'),
            seg_views(segs@) == sv,
            segs@.len() == sv.len(),
            forall|j: int| 0 <= j < i ==> #[trigger] sv[j] != ".."@,
        decreases segs@.len() - i,
    {
        if str_eq(segs[i].as_str(), "..") {
            proof {
                assert(sv[i as int] == ".."@);
                assert(sv.contains(".."@));
            }
            return true;
        }
        i += 1;
    }
    proof {
        assert(!sv.contains(".."@)) by {
            if sv.contains(".."@) {
                let j = choose|j: int| 0 <= j < sv.len() && sv[j] == ".."@;
                assert(sv[j] != ".."@);
            }
        }
    }
    false
}

/// The file path a request path resolves to under `dir`, or `None` when
/// the request path escapes the base directory.
pub fn static_file_path(dir: &str, request_path: &str) -> (r: Option<String>)
    ensures
        match r {
            Some(p) => !escapes_base(request_path@) && p@ == spec_static_path(
                dir@,
                request_path@,
            ),
            None => escapes_base(request_path@),
        },
{
    if path_escapes(request_path) {
        return None;
    }
    let plen = request_path.unicode_len();
    let rel: &str = if plen >= 1 && request_path.get_char(0) == '/' {
        request_path.substring_char(1, plen)
    } else {
        request_path
    };
    proof {
        assert(rel@ == strip_leading_slash(request_path@));
    }
    let dlen = dir.unicode_len();
    if dlen == 0 {
        return Some(String::from_str(rel));
    }
    let mut out = String::from_str(dir);
    if dir.get_char(dlen - 1) != '/' {
        out.append("/");
        proof {
            reveal_strlit("/");
            assert("/"@ =~= seq!['/']);
        }
    }
    out.append(rel);
    Some(out)
}

/// Builds the success response for a static file: status 200, the body
/// equal to the file's bytes, and the content type looked up from the
/// request path's extension — or the generic binary type when the table
/// has no entry for it, so an unknown extension never fails the dispatch.
pub fn static_response(request_path: &str, content: Vec<u8>, mime: &Dict) -> (r: HttpResponse)
    requires
        mime.wf(),
    ensures
        is_static_response_for(r, request_path@, content@, mime@),
{
    let ext = extension_of(request_path);
    let content_type = match mime.get(ext.as_str()) {
        Some(ct) => ct,
        None => String::from_str("application/octet-stream"),
    };
    HttpResponse { status: STATUS_OK, content_type, body: content }
}

/// Serving the same file twice with an unchanged MIME table yields
/// byte-identical responses: the response is a function of the request
/// path, the file bytes and the table alone.
pub proof fn lemma_static_serving_deterministic(
    r1: HttpResponse,
    r2: HttpResponse,
    p: Seq<char>,
    content: Seq<u8>,
    mime: Map<Seq<char>, Seq<char>>,
)
    requires
        is_static_response_for(r1, p, content, mime),
        is_static_response_for(r2, p, content, mime),
    ensures
        r1.status == r2.status,
        r1.content_type@ == r2.content_type@,
        r1.body@ == r2.body@,
{
}

} // verus!
