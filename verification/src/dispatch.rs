use vstd::prelude::*;

verus! {

use vstd::string::StringExecFns;
use crate::dict::{no_empty_values, Dict};
use crate::http::HttpResponse;
use crate::matcher::{captures_map, template_matches, Route};
use crate::method::Method;
use crate::negotiate::{is_not_found_for, not_found_response, NotFoundGenerator};
use crate::static_files::{escapes_base, is_static_response_for, path_escapes, static_response};
use crate::strutil::spec_split;

/// The per-request context handed to a handler: the shared base directory,
/// the parameter mapping, and the page text a handler may serve for its
/// own "not found" answers.
///
/// The base instance configured at startup is never mutated by a dispatch;
/// each dispatch builds its own copy whose `extra` mapping is extended
/// with the parameters captured from the request path, so concurrent
/// requests never share mutable state.
pub struct Params {
    pub dir: String,
    pub extra: Dict,
    pub custom_404: String,
}

/// The parameters a route's template captures from a request path.
pub open spec fn route_captures<H>(r: Route<H>, p: Seq<char>) -> Map<Seq<char>, Seq<char>> {
    captures_map(spec_split(r.path@, '/'), spec_split(p, '/'))
}

/// Whether a route takes a request: the method is the route's, the
/// template matches the path, and no captured value is the empty string.
///
/// A route whose template matches but captures an empty value — a
/// trailing slash standing where a segment was expected — is passed over,
/// and the dispatch falls through to the remaining routes and then to the
/// static-file and "not found" paths.  The emptiness check covers only
/// the values captured from this request's path, never the base context's
/// own parameters.
pub open spec fn route_accepts<H>(r: Route<H>, m: Method, p: Seq<char>) -> bool {
    &&& r.method == m
    &&& template_matches(spec_split(r.path@, '/'), spec_split(p, '/'))
    &&& no_empty_values(route_captures(r, p))
}

/// The position of the first route at or after `i` that accepts the
/// request, or `None` when none does.
pub open spec fn first_accepting<H>(
    routes: Seq<Route<H>>,
    m: Method,
    p: Seq<char>,
    i: int,
) -> Option<int>
    decreases routes.len() - i,
{
    if i < 0 || i >= routes.len() {
        None
    } else if route_accepts(routes[i], m, p) {
        Some(i)
    } else {
        first_accepting(routes, m, p, i + 1)
    }
}

/// The page text a fresh context carries for handler-side "not found"
/// answers.
pub open spec fn default_404_page() -> Seq<char> {
    "<html><body><h1>404 Not Found</h1><p>404 Page Not Found.</p></body></html>"@
}

/// The extension-to-content-type entries a fresh registry starts with.
pub open spec fn default_mime_map() -> Map<Seq<char>, Seq<char>> {
    Map::<Seq<char>, Seq<char>>::empty()
        .insert("html"@, "text/html"@)
        .insert("htm"@, "text/html"@)
        .insert("css"@, "text/css"@)
        .insert("js"@, "application/javascript"@)
        .insert("json"@, "application/json"@)
        .insert("png"@, "image/png"@)
        .insert("jpg"@, "image/jpeg"@)
        .insert("jpeg"@, "image/jpeg"@)
        .insert("gif"@, "image/gif"@)
        .insert("svg"@, "image/svg+xml"@)
        .insert("ico"@, "image/x-icon"@)
        .insert("txt"@, "text/plain"@)
        .insert("pdf"@, "application/pdf"@)
        .insert("wasm"@, "application/wasm"@)
        .insert("xml"@, "application/xml"@)
}

/// The keys named by the first `n` extension strings.
pub open spec fn key_set(v: Seq<&str>, n: int) -> Set<Seq<char>>
    decreases n,
{
    if n <= 0 {
        Set::<Seq<char>>::empty()
    } else {
        key_set(v, n - 1).insert(v[n - 1]@)
    }
}

/// The MIME table a fresh registry starts with.
pub fn default_mime_types() -> (d: Dict)
    ensures
        d.wf(),
        d@ == default_mime_map(),
{
    let mut d = Dict::new();
    d.insert(String::from_str("html"), String::from_str("text/html"));
    d.insert(String::from_str("htm"), String::from_str("text/html"));
    d.insert(String::from_str("css"), String::from_str("text/css"));
    d.insert(String::from_str("js"), String::from_str("application/javascript"));
    d.insert(String::from_str("json"), String::from_str("application/json"));
    d.insert(String::from_str("png"), String::from_str("image/png"));
    d.insert(String::from_str("jpg"), String::from_str("image/jpeg"));
    d.insert(String::from_str("jpeg"), String::from_str("image/jpeg"));
    d.insert(String::from_str("gif"), String::from_str("image/gif"));
    d.insert(String::from_str("svg"), String::from_str("image/svg+xml"));
    d.insert(String::from_str("ico"), String::from_str("image/x-icon"));
    d.insert(String::from_str("txt"), String::from_str("text/plain"));
    d.insert(String::from_str("pdf"), String::from_str("application/pdf"));
    d.insert(String::from_str("wasm"), String::from_str("application/wasm"));
    d.insert(String::from_str("xml"), String::from_str("application/xml"));
    d
}

/// The routing and dispatch core: an ordered, append-only route registry,
/// the shared base context, the MIME table for static serving, and the
/// optional custom "not found" generator.
///
/// `H` is the caller's handler representation — a function pointer, a
/// closure type, an index into the caller's own table — and stays opaque
/// here; `G` generates custom "not found" bodies.
///
/// A dispatch is two calls.  `find_route` walks the registry in
/// registration order and yields the selected handler's position together
/// with the merged per-request context; the caller invokes that handler
/// and returns its response untouched.  When it yields `None`, the caller
/// reads the file that `static_file_path` resolves under the base
/// directory and completes with `fallback_response`, which serves the
/// bytes or negotiates the "not found" answer.  Only the file read and
/// the handler run sit between the two calls; every decision is made
/// here.
pub struct Fluxor<H, G> {
    pub params: Params,
    pub routes: Vec<Route<H>>,
    pub mime_types: Dict,
    pub custom_404_gen: Option<G>,
}

impl<H, G> Fluxor<H, G> {
    /// The structural invariant: both mappings keep their keys unique.
    pub open spec fn wf(&self) -> bool {
        &&& self.params.extra.wf()
        &&& self.mime_types.wf()
    }

    /// A fresh core: no routes, an empty base context, the default MIME
    /// table, and no custom "not found" generator.
    pub fn new() -> (r: Self)
        ensures
            r.wf(),
            r.routes@ == Seq::<Route<H>>::empty(),
            r.params.dir@ == Seq::<char>::empty(),
            r.params.extra@ == Map::<Seq<char>, Seq<char>>::empty(),
            r.params.custom_404@ == default_404_page(),
            r.mime_types@ == default_mime_map(),
            r.custom_404_gen is None,
    {
        Fluxor {
            params: Params {
                dir: String::new(),
                extra: Dict::new(),
                custom_404: String::from_str(
                    "<html><body><h1>404 Not Found</h1><p>404 Page Not Found.</p></body></html>",
                ),
            },
            routes: Vec::new(),
            mime_types: default_mime_types(),
            custom_404_gen: None,
        }
    }

    /// Installs the generator the "not found" responder consults from now
    /// on.
    pub fn set_custom_404(&mut self, generator: G)
        ensures
            final(self).custom_404_gen == Some(generator),
            final(self).params == old(self).params,
            final(self).routes == old(self).routes,
            final(self).mime_types == old(self).mime_types,
    {
        self.custom_404_gen = Some(generator);
    }

    /// Sets the base directory for static file serving.
    pub fn set_dir(&mut self, dir: String)
        ensures
            final(self).params.dir == dir,
            final(self).params.extra == old(self).params.extra,
            final(self).params.custom_404 == old(self).params.custom_404,
            final(self).routes == old(self).routes,
            final(self).mime_types == old(self).mime_types,
            final(self).custom_404_gen == old(self).custom_404_gen,
    {
        self.params.dir = dir;
    }

    /// Appends a route.  Nothing is validated and nothing deduplicated:
    /// the first registered match wins at dispatch, so registration order
    /// is part of the registry's meaning.
    pub fn route(&mut self, method: Method, path: &str, handler: H)
        ensures
            final(self).routes@.len() == old(self).routes@.len() + 1,
            final(self).routes@.drop_last() == old(self).routes@,
            final(self).routes@.last().method == method,
            final(self).routes@.last().path@ == path@,
            final(self).routes@.last().handler == handler,
            final(self).params == old(self).params,
            final(self).mime_types == old(self).mime_types,
            final(self).custom_404_gen == old(self).custom_404_gen,
    {
        let path = String::from_str(path);
        self.routes.push(Route { method, path, handler });
        proof {
            assert(self.routes@.drop_last() =~= old(self).routes@);
        }
    }

    /// Adds the given extension-to-content-type entries, overriding any
    /// the table already had.
    pub fn include_mime_types(&mut self, new_types: Dict)
        requires
            old(self).mime_types.wf(),
            new_types.wf(),
        ensures
            final(self).mime_types.wf(),
            final(self).mime_types@ == old(self).mime_types@.union_prefer_right(new_types@),
            final(self).params == old(self).params,
            final(self).routes == old(self).routes,
            final(self).custom_404_gen == old(self).custom_404_gen,
    {
        self.mime_types.extend(&new_types);
    }

    /// Removes the entries of the given extensions; absent ones are
    /// ignored.
    pub fn exclude_mime_types(&mut self, extensions: Vec<&str>)
        requires
            old(self).mime_types.wf(),
        ensures
            final(self).mime_types.wf(),
            final(self).mime_types@ == old(self).mime_types@.remove_keys(
                key_set(extensions@, extensions@.len() as int),
            ),
            final(self).params == old(self).params,
            final(self).routes == old(self).routes,
            final(self).custom_404_gen == old(self).custom_404_gen,
    {
        let ghost m0 = old(self).mime_types@;
        let mut i: usize = 0;
        proof {
            assert(m0.remove_keys(key_set(extensions@, 0)) =~= m0);
        }
        while i < extensions.len()
            invariant
                i <= extensions@.len(),
                self.mime_types.wf(),
                self.mime_types@ == m0.remove_keys(key_set(extensions@, i as int)),
                self.params == old(self).params,
                self.routes == old(self).routes,
                self.custom_404_gen == old(self).custom_404_gen,
            decreases extensions@.len() - i,
        {
            self.mime_types.remove(extensions[i]);
            proof {
                assert(m0.remove_keys(key_set(extensions@, i as int)).remove(
                    extensions@[i as int]@,
                ) =~= m0.remove_keys(key_set(extensions@, i + 1)));
            }
            i += 1;
        }
    }

    /// Walks the registry in registration order and selects the first
    /// route that accepts the request, together with the context the
    /// handler is to receive: a copy of the base context whose `extra`
    /// mapping is extended with the captured path parameters, the capture
    /// overriding the base value on a shared name.
    ///
    /// `None` means no route takes this request and the dispatch falls
    /// through to static serving.
    pub fn find_route(&self, method: Method, path: &str) -> (r: Option<(usize, Params)>)
        requires
            self.params.extra.wf(),
        ensures
            match r {
                Some(sel) => {
                    &&& first_accepting(self.routes@, method, path@, 0) == Some(sel.0 as int)
                    &&& sel.0 < self.routes@.len()
                    &&& route_accepts(self.routes@[sel.0 as int], method, path@)
                    &&& sel.1.dir@ == self.params.dir@
                    &&& sel.1.custom_404@ == self.params.custom_404@
                    &&& sel.1.extra.wf()
                    &&& sel.1.extra@ == self.params.extra@.union_prefer_right(
                        route_captures(self.routes@[sel.0 as int], path@),
                    )
                },
                None => first_accepting(self.routes@, method, path@, 0) is None,
            },
    {
        let mut idx: usize = 0;
        while idx < self.routes.len()
            invariant
                idx <= self.routes@.len(),
                self.params.extra.wf(),
                first_accepting(self.routes@, method, path@, 0) == first_accepting(
                    self.routes@,
                    method,
                    path@,
                    idx as int,
                ),
            decreases self.routes@.len() - idx,
        {
            let route = &self.routes[idx];
            if route.method == method {
                match route.is_match(path) {
                    Some(caps) => {
                        if !caps.has_empty_value() {
                            proof {
                                assert(route_accepts(self.routes@[idx as int], method, path@));
                            }
                            let mut extra = self.params.extra.duplicate();
                            extra.extend(&caps);
                            let params = Params {
                                dir: self.params.dir.clone(),
                                extra,
                                custom_404: self.params.custom_404.clone(),
                            };
                            return Some((idx, params));
                        }
                    }
                    None => {}
                }
            }
            proof {
                assert(!route_accepts(self.routes@[idx as int], method, path@));
            }
            idx += 1;
        }
        None
    }

}

impl<H, G: NotFoundGenerator> Fluxor<H, G> {
    /// Completes a dispatch that matched no route.
    ///
    /// The caller resolves the request path under the base directory and
    /// hands over the file's bytes, or `None` when there was no file to
    /// read.  With bytes in hand — and a path that stays inside the base
    /// directory — the response is the static success response; otherwise
    /// it is the content-negotiated "not found" response, whose status and
    /// content type depend on the `Accept` header value alone.
    pub fn fallback_response(
        &self,
        request_path: &str,
        content: Option<Vec<u8>>,
        accept: &str,
    ) -> (r: HttpResponse)
        requires
            self.mime_types.wf(),
        ensures
            content matches Some(c) ==> (!escapes_base(request_path@)
                ==> is_static_response_for(r, request_path@, c@, self.mime_types@)),
            (escapes_base(request_path@) || content is None) ==> is_not_found_for(
                r,
                accept@,
                self.custom_404_gen is None,
            ),
    {
        match content {
            Some(bytes) => {
                if !path_escapes(request_path) {
                    static_response(request_path, bytes, &self.mime_types)
                } else {
                    not_found_response(accept, self.custom_404_gen.as_ref())
                }
            }
            None => not_found_response(accept, self.custom_404_gen.as_ref()),
        }
    }
}

proof fn lemma_first_accepting_le<H>(routes: Seq<Route<H>>, m: Method, p: Seq<char>, t: int, i: int)
    requires
        0 <= t <= i < routes.len(),
        route_accepts(routes[i], m, p),
    ensures
        first_accepting(routes, m, p, t) matches Some(k) && t <= k <= i,
    decreases i - t,
{
    if route_accepts(routes[t], m, p) {
    } else {
        lemma_first_accepting_le(routes, m, p, t + 1, i);
    }
}

/// Registration order decides precedence: when two registered routes both
/// accept a request, dispatch selects a route no later than the earlier
/// one — the later route is never the one selected.
pub proof fn lemma_earlier_route_wins<H>(
    routes: Seq<Route<H>>,
    m: Method,
    p: Seq<char>,
    i: int,
    j: int,
)
    requires
        0 <= i < j < routes.len(),
        route_accepts(routes[i], m, p),
        route_accepts(routes[j], m, p),
    ensures
        first_accepting(routes, m, p, 0) matches Some(k) && 0 <= k <= i < j,
{
    lemma_first_accepting_le(routes, m, p, 0, i);
}

} // verus!
