//! The `Query` configuration: a base endpoint chosen by mode, a route, a
//! response format, and the parameter / option mappings sent with a search.

use vstd::prelude::*;

verus! {

/// The production search endpoint.
pub open spec fn spec_ops_endpoint() -> Seq<char> {
    "https://cmr.earthdata.nasa.gov/search/"@
}

/// The user-acceptance-test search endpoint.
pub open spec fn spec_uat_endpoint() -> Seq<char> {
    "https://cmr.uat.earthdata.nasa.gov/search/"@
}

/// The system-integration-test search endpoint.
pub open spec fn spec_sit_endpoint() -> Seq<char> {
    "https://cmr.sit.earthdata.nasa.gov/search/"@
}

/// The base URL selected by a mode string: the UAT or SIT endpoint for the
/// two recognised non-production modes, and the production endpoint for any
/// other mode string.
pub open spec fn spec_base_url_for_mode(mode: Seq<char>) -> Seq<char> {
    if mode == "CMR_UAT"@ {
        spec_uat_endpoint()
    } else if mode == "CMR_SIT"@ {
        spec_sit_endpoint()
    } else {
        spec_ops_endpoint()
    }
}

/// Whether the string is one of the three fixed environment endpoints.
pub open spec fn fixed_endpoint(s: Seq<char>) -> bool {
    s == spec_ops_endpoint() || s == spec_uat_endpoint() || s == spec_sit_endpoint()
}

/// The response formats the server can be asked for.
pub open spec fn spec_supported_format(f: Seq<char>) -> bool {
    ||| f == "json"@
    ||| f == "xml"@
    ||| f == "echo10"@
    ||| f == "iso"@
    ||| f == "iso19115"@
    ||| f == "csv"@
    ||| f == "atom"@
    ||| f == "kml"@
    ||| f == "native"@
}

/// The key/value entries of an association list, as character sequences.
pub open spec fn pairs_view(ps: Seq<(String, String)>) -> Seq<(Seq<char>, Seq<char>)> {
    ps.map_values(|p: (String, String)| (p.0@, p.1@))
}

/// No two entries of the list share a key.
pub open spec fn keys_distinct(ps: Seq<(String, String)>) -> bool {
    forall|i: int, j: int| 0 <= i < j < ps.len() ==> ps[i].0@ != ps[j].0@
}

/// The first position holding `key`, or the length of the list if none does.
pub open spec fn find_key(ps: Seq<(String, String)>, key: Seq<char>) -> int
    decreases ps.len(),
{
    if ps.len() == 0 {
        0
    } else if ps[0].0@ == key {
        0
    } else {
        1 + find_key(ps.drop_first(), key)
    }
}

/// Relies on `str`'s `PartialEq`: two string slices compare equal exactly
/// when their character sequences are equal.
#[verifier::external_body]
pub(crate) fn str_eq(a: &str, b: &str) -> (r: bool)
    ensures
        r == (a@ == b@),
{
    a == b
}

/// One logical search: where to send it, what to ask for, and the pagination
/// cursor most recently observed from the server.
pub struct Query {
    /// One of the three fixed environment endpoints.
    pub base_url: String,
    /// The path segment naming the searched resource.
    pub route: String,
    /// The response format the server is asked for.
    pub format: String,
    /// Query parameters, sent URL-encoded with every page request. A value
    /// is carried as the string sent on the wire: a caller holding
    /// JSON-typed values passes their serialized text. Entries keep
    /// insertion order, and a key occurs at most once.
    pub params: Vec<(String, String)>,
    /// Request options set by the caller; carried, not interpreted.
    pub options: Vec<(String, String)>,
    /// The continuation cursor from the last response, if any.
    pub cursor: Option<String>,
}

impl Query {
    /// A fresh query against `route`, with the base URL selected by `mode`
    /// (defaulting to the production endpoint), format `"json"`, empty
    /// parameter and option mappings, and no cursor.
    pub fn new(route: &str, mode: &str) -> (q: Query)
        ensures
            q.base_url@ == spec_base_url_for_mode(mode@),
            fixed_endpoint(q.base_url@),
            q.route@ == route@,
            q.format@ == "json"@,
            q.params@ =~= Seq::<(String, String)>::empty(),
            q.options@ =~= Seq::<(String, String)>::empty(),
            q.cursor is None,
    {
        let base_url = if str_eq(mode, "CMR_UAT") {
            "https://cmr.uat.earthdata.nasa.gov/search/".to_owned()
        } else if str_eq(mode, "CMR_SIT") {
            "https://cmr.sit.earthdata.nasa.gov/search/".to_owned()
        } else {
            "https://cmr.earthdata.nasa.gov/search/".to_owned()
        };
        Query {
            base_url,
            route: route.to_owned(),
            format: "json".to_owned(),
            params: Vec::new(),
            options: Vec::new(),
            cursor: None,
        }
    }

    /// The configured base URL.
    pub fn base_url(&self) -> (r: &str)
        ensures
            r@ == self.base_url@,
    {
        self.base_url.as_str()
    }

    /// The configured route.
    pub fn route(&self) -> (r: &str)
        ensures
            r@ == self.route@,
    {
        self.route.as_str()
    }

    /// The configured response format.
    pub fn format(&self) -> (r: &str)
        ensures
            r@ == self.format@,
    {
        self.format.as_str()
    }

    /// Whether `f` is a response format the server can be asked for.
    pub fn is_supported_format(f: &str) -> (r: bool)
        ensures
            r == spec_supported_format(f@),
    {
        str_eq(f, "json") || str_eq(f, "xml") || str_eq(f, "echo10") || str_eq(f, "iso")
            || str_eq(f, "iso19115") || str_eq(f, "csv") || str_eq(f, "atom") || str_eq(f, "kml")
            || str_eq(f, "native")
    }

    /// Set the response format, if it is a supported one; an unsupported
    /// format is rejected and the query is left unchanged.
    pub fn set_format(&mut self, f: &str) -> (r: bool)
        ensures
            r == spec_supported_format(f@),
            r ==> final(self).format@ == f@,
            !r ==> final(self).format@ == old(self).format@,
            final(self).base_url@ == old(self).base_url@,
            final(self).route@ == old(self).route@,
            final(self).params@ == old(self).params@,
            final(self).options@ == old(self).options@,
            final(self).cursor == old(self).cursor,
    {
        if Self::is_supported_format(f) {
            self.format = f.to_owned();
            true
        } else {
            false
        }
    }

    /// Set the search parameter `key` to `value`: the first entry already
    /// holding `key` is replaced, and otherwise the pair is appended, so a
    /// key occurs at most once and insertion order is kept.
    pub fn set_param(&mut self, key: String, value: String)
        ensures
            final(self).params@ == set_assoc(old(self).params@, key, value),
            keys_distinct(old(self).params@) ==> keys_distinct(final(self).params@),
            final(self).base_url@ == old(self).base_url@,
            final(self).route@ == old(self).route@,
            final(self).format@ == old(self).format@,
            final(self).options@ == old(self).options@,
            final(self).cursor == old(self).cursor,
    {
        set_assoc_entry(&mut self.params, key, value);
    }

    /// Set the request option `key` to `value`, with the same replacement
    /// rule as for parameters.
    pub fn set_option(&mut self, key: String, value: String)
        ensures
            final(self).options@ == set_assoc(old(self).options@, key, value),
            keys_distinct(old(self).options@) ==> keys_distinct(final(self).options@),
            final(self).base_url@ == old(self).base_url@,
            final(self).route@ == old(self).route@,
            final(self).format@ == old(self).format@,
            final(self).params@ == old(self).params@,
            final(self).cursor == old(self).cursor,
    {
        set_assoc_entry(&mut self.options, key, value);
    }

    /// Build the request URL as a URL value: the base URL with the route
    /// appended as a path segment and every parameter appended as a
    /// URL-encoded query pair. Fails when the base URL is malformed or
    /// cannot serve as a hierarchical base — configuration errors the three
    /// fixed endpoints never cause — or when a component is longer than the
    /// builder accepts.
    pub fn build_request_url(&self) -> (r: Result<url::Url, crate::urls::UrlError>)
        ensures
            r is Ok ==> crate::urls::url_parse_ok(self.base_url@)
                && crate::urls::url_is_hierarchical(crate::urls::url_of(self.base_url@)),
            r matches Ok(u) ==> u == spec_built_url(self.base_url@, self.route@, pairs_view(
                self.params@,
            )),
            r matches Ok(u) ==> crate::urls::url_built_from(u, self.route@, pairs_view(
                self.params@,
            )),
            r matches Ok(u) ==> crate::urls::url_str(u).len() <= crate::urls::MAX_URL_LEN,
            r matches Ok(u) ==> (crate::urls::plain_segment(self.route@)
                ==> crate::urls::url_authority(u) == crate::urls::url_authority(
                crate::urls::url_of(self.base_url@),
            )),
            r matches Err(e) ==> ((e is Parse) <==> !crate::urls::url_parse_ok(self.base_url@)),
            r matches Err(e) ==> ((e is CannotBeABase) ==> !crate::urls::url_is_hierarchical(
                crate::urls::url_of(self.base_url@),
            )),
            fixed_endpoint(self.base_url@) && spec_build_fits(self.route@, pairs_view(
                self.params@,
            )) ==> r is Ok,
    {
        proof {
            reveal_strlit("https://cmr.earthdata.nasa.gov/search/");
            reveal_strlit("https://cmr.uat.earthdata.nasa.gov/search/");
            reveal_strlit("https://cmr.sit.earthdata.nasa.gov/search/");
        }
        let mut u = match crate::urls::url_parse(self.base_url.as_str()) {
            Ok(u) => u,
            Err(e) => {
                return Err(crate::urls::UrlError::Parse(e));
            },
        };
        let base_n = crate::urls::url_len_bound(&u);
        let route_n = crate::urls::str_len_bound(self.route.as_str());
        if base_n > crate::urls::MAX_COMPONENT_LEN || route_n > crate::urls::MAX_COMPONENT_LEN
            || self.params.len() > crate::urls::MAX_COMPONENT_LEN || !params_text_fits(
            &self.params,
        ) {
            return Err(crate::urls::UrlError::TooLong);
        }
        crate::urls::url_clear_query(&mut u);
        if !crate::urls::attach_route_and_params(&mut u, self.route.as_str(), &self.params) {
            return Err(crate::urls::UrlError::CannotBeABase);
        }
        Ok(u)
    }

    /// Build the request URL as a string: the serialization of the URL that
    /// `build_request_url` constructs, succeeding and failing exactly as it
    /// does. The string parses back to that URL, which keeps the base's
    /// scheme and authority.
    pub fn build_url(&self) -> (r: Result<String, crate::urls::UrlError>)
        ensures
            r is Ok ==> crate::urls::url_parse_ok(self.base_url@)
                && crate::urls::url_is_hierarchical(crate::urls::url_of(self.base_url@)),
            r matches Ok(s) ==> s@ == crate::urls::url_str(
                spec_built_url(self.base_url@, self.route@, pairs_view(self.params@)),
            ),
            r matches Ok(s) ==> crate::urls::url_parse_ok(s@) && crate::urls::url_of(s@)
                == spec_built_url(self.base_url@, self.route@, pairs_view(self.params@)),
            r matches Ok(s) ==> crate::urls::url_built_from(
                spec_built_url(self.base_url@, self.route@, pairs_view(self.params@)),
                self.route@,
                pairs_view(self.params@),
            ),
            r is Ok ==> (crate::urls::plain_segment(self.route@) ==> crate::urls::url_authority(
                spec_built_url(self.base_url@, self.route@, pairs_view(self.params@)),
            ) == crate::urls::url_authority(crate::urls::url_of(self.base_url@))),
            r matches Err(e) ==> ((e is Parse) <==> !crate::urls::url_parse_ok(self.base_url@)),
            r matches Err(e) ==> ((e is CannotBeABase) ==> !crate::urls::url_is_hierarchical(
                crate::urls::url_of(self.base_url@),
            )),
            fixed_endpoint(self.base_url@) && spec_build_fits(self.route@, pairs_view(
                self.params@,
            )) ==> r is Ok,
    {
        let u = match self.build_request_url() {
            Ok(u) => u,
            Err(e) => {
                return Err(e);
            },
        };
        let s = crate::urls::url_to_string(&u);
        Ok(s)
    }

    /// Record the continuation cursor observed on the latest response.
    pub fn set_cursor(&mut self, cursor: Option<String>)
        ensures
            final(self).cursor == cursor,
            final(self).base_url@ == old(self).base_url@,
            final(self).route@ == old(self).route@,
            final(self).format@ == old(self).format@,
            final(self).params@ == old(self).params@,
            final(self).options@ == old(self).options@,
    {
        self.cursor = cursor;
    }

    /// Strip the carried cursor, so a reused query does not resume a stale
    /// pagination.
    pub fn clear_cursor(&mut self)
        ensures
            final(self).cursor is None,
            final(self).base_url@ == old(self).base_url@,
            final(self).route@ == old(self).route@,
            final(self).format@ == old(self).format@,
            final(self).params@ == old(self).params@,
            final(self).options@ == old(self).options@,
    {
        self.cursor = None;
    }
}

/// Component sizes the URL builder accepts outright: within these
/// character bounds the builder's run-time byte checks always pass (a
/// UTF-8 character takes at most four bytes).
pub open spec fn spec_build_fits(route: Seq<char>, params: Seq<(Seq<char>, Seq<char>)>) -> bool {
    &&& 4 * route.len() <= crate::urls::MAX_COMPONENT_LEN
    &&& 4 * crate::urls::pairs_text_len(params) <= crate::urls::MAX_COMPONENT_LEN
    &&& params.len() <= crate::urls::MAX_COMPONENT_LEN
}

/// Whether the parameters' total byte length fits the builder's component
/// cap.
fn params_text_fits(params: &Vec<(String, String)>) -> (fits: bool)
    ensures
        fits ==> crate::urls::pairs_text_len(pairs_view(params@))
            <= crate::urls::MAX_COMPONENT_LEN,
        4 * crate::urls::pairs_text_len(pairs_view(params@)) <= crate::urls::MAX_COMPONENT_LEN
            ==> fits,
{
    let ghost pv = pairs_view(params@);
    let mut total: usize = 0;
    let mut i: usize = 0;
    while i < params.len()
        invariant
            0 <= i <= params@.len(),
            pv == pairs_view(params@),
            crate::urls::pairs_text_len(pv.take(i as int)) <= total,
            total <= 4 * crate::urls::pairs_text_len(pv.take(i as int)),
            total <= crate::urls::MAX_COMPONENT_LEN,
        decreases params@.len() - i,
    {
        proof {
            assert(pv[i as int] == (params@[i as int].0@, params@[i as int].1@));
            crate::urls::lemma_pairs_text_len_split(pv, i as int);
            assert(pv.skip(i as int)[0] == pv[i as int]);
            assert(pv.skip(i as int).drop_first() =~= pv.skip(i + 1 as int));
            crate::urls::lemma_pairs_text_len_nonneg(pv.skip(i + 1 as int));
            crate::urls::lemma_pairs_text_len_nonneg(pv.take(i as int));
        }
        let k = crate::urls::str_len_bound(params[i].0.as_str());
        let v = crate::urls::str_len_bound(params[i].1.as_str());
        if k > crate::urls::MAX_COMPONENT_LEN || v > crate::urls::MAX_COMPONENT_LEN {
            return false;
        }
        if total + k + v > crate::urls::MAX_COMPONENT_LEN {
            return false;
        }
        proof {
            crate::urls::lemma_pairs_text_len_split(pv.take(i + 1 as int), i as int);
            assert(pv.take(i + 1 as int).take(i as int) =~= pv.take(i as int));
            assert(pv.take(i + 1 as int).skip(i as int) =~= seq![pv[i as int]]);
            assert(seq![pv[i as int]].drop_first() =~= Seq::<(Seq<char>, Seq<char>)>::empty());
            assert(seq![pv[i as int]].len() == 1);
            assert(seq![pv[i as int]][0] == pv[i as int]);
            assert(crate::urls::pairs_text_len(Seq::<(Seq<char>, Seq<char>)>::empty()) == 0);
            assert(crate::urls::pairs_text_len(seq![pv[i as int]]) == params@[i as int].0@.len()
                + params@[i as int].1@.len());
            assert(crate::urls::pairs_text_len(pv.take(i + 1 as int)) == crate::urls::pairs_text_len(
                pv.take(i as int),
            ) + params@[i as int].0@.len() + params@[i as int].1@.len());
        }
        total = total + k + v;
        i += 1;
    }
    proof {
        assert(pv.take(params@.len() as int) =~= pv);
    }
    true
}

/// The request URL that building yields for a base, route and parameter
/// list: the parsed base with its query removed, the route pushed as a path
/// segment, and each parameter appended as a query pair, in order.
/// Meaningful where the base parses.
pub open spec fn spec_built_url(
    base: Seq<char>,
    route: Seq<char>,
    params: Seq<(Seq<char>, Seq<char>)>,
) -> url::Url {
    crate::urls::url_with_pairs(
        crate::urls::url_after_push(
            crate::urls::url_after_clear_query(crate::urls::url_of(base)),
            route,
        ),
        params,
    )
}

/// The name of the pagination-cursor response header that the server uses to
/// continue a search.
pub open spec fn spec_cursor_header_name() -> Seq<char> {
    "cmr-search-after"@
}

/// The name of the pagination-cursor response header.
pub fn cursor_header_name() -> (r: &'static str)
    ensures
        r@ == spec_cursor_header_name(),
{
    "cmr-search-after"
}

/// For any route and any parameter mapping with distinct keys, a built
/// request URL's path ends with exactly the route segment (when the route is
/// a plain segment), and every parameter appears exactly once among the
/// URL's query pairs, in insertion order.
pub proof fn lemma_built_url_params_once(q: Query, u: url::Url)
    requires
        keys_distinct(q.params@),
        crate::urls::url_built_from(u, q.route@, pairs_view(q.params@)),
    ensures
        crate::urls::plain_segment(q.route@) ==> crate::urls::url_path_segments(u).len() > 0
            && crate::urls::url_path_segments(u).last() == q.route@,
        crate::urls::url_query_pairs(u).len() == q.params@.len(),
        forall|i: int|
            0 <= i < q.params@.len() ==> crate::urls::url_query_pairs(u)[i] == (
            q.params@[i].0@,
            q.params@[i].1@,
            ),
        forall|i: int, j: int|
            0 <= i < j < crate::urls::url_query_pairs(u).len()
                ==> crate::urls::url_query_pairs(u)[i].0 != crate::urls::url_query_pairs(u)[j].0,
{
    assert forall|i: int| 0 <= i < q.params@.len() implies crate::urls::url_query_pairs(u)[i] == (
        q.params@[i].0@,
        q.params@[i].1@,
    ) by {
        assert(pairs_view(q.params@)[i] == (q.params@[i].0@, q.params@[i].1@));
    }
}

/// The list after setting `key` to `value`: the first entry holding `key` is
/// replaced, and otherwise the pair is appended.
pub open spec fn set_assoc(ps: Seq<(String, String)>, key: String, value: String) -> Seq<
    (String, String),
> {
    let i = find_key(ps, key@);
    if i < ps.len() {
        ps.update(i, (key, value))
    } else {
        ps.push((key, value))
    }
}

proof fn lemma_find_key_range(ps: Seq<(String, String)>, key: Seq<char>)
    ensures
        0 <= find_key(ps, key) <= ps.len(),
        find_key(ps, key) < ps.len() ==> ps[find_key(ps, key)].0@ == key,
        forall|j: int| 0 <= j < find_key(ps, key) ==> ps[j].0@ != key,
    decreases ps.len(),
{
    if ps.len() != 0 && ps[0].0@ != key {
        lemma_find_key_range(ps.drop_first(), key);
        assert forall|j: int| 0 <= j < find_key(ps, key) implies ps[j].0@ != key by {
            if j > 0 {
                assert(ps.drop_first()[j - 1] == ps[j]);
            }
        }
    }
}

/// Replace the first entry holding `key`, or append the pair.
fn set_assoc_entry(ps: &mut Vec<(String, String)>, key: String, value: String)
    ensures
        final(ps)@ == set_assoc(old(ps)@, key, value),
        keys_distinct(old(ps)@) ==> keys_distinct(final(ps)@),
{
    let mut i: usize = 0;
    while i < ps.len()
        invariant
            0 <= i <= ps@.len(),
            ps@ == old(ps)@,
            forall|j: int| 0 <= j < i ==> ps@[j].0@ != key@,
        decreases ps@.len() - i,
    {
        if str_eq(ps[i].0.as_str(), key.as_str()) {
            proof {
                lemma_find_key_range(ps@, key@);
                assert(find_key(ps@, key@) == i);
            }
            let ghost before = ps@;
            ps[i] = (key, value);
            proof {
                assert(ps@ == before.update(i as int, (key, value)));
                if keys_distinct(before) {
                    assert forall|a: int, b: int| 0 <= a < b < ps@.len() implies ps@[a].0@
                        != ps@[b].0@ by {
                        assert(before[i as int].0@ == key@);
                    }
                }
            }
            return ;
        }
        i += 1;
    }
    proof {
        lemma_find_key_range(ps@, key@);
        assert(find_key(ps@, key@) == ps@.len());
    }
    let ghost before = ps@;
    ps.push((key, value));
    proof {
        if keys_distinct(before) {
            assert forall|a: int, b: int| 0 <= a < b < ps@.len() implies ps@[a].0@ != ps@[b].0@ by {
                if b == before.len() {
                    assert(before[a].0@ != key@);
                }
            }
        }
    }
}

} // verus!
