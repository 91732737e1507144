//! Building request URLs with the `url` crate.
//!
//! The URL value itself is opaque; its path segments, its decoded query
//! pairs, and its serialization are named by uninterpreted spec functions,
//! and each `url` crate call the builder makes is wrapped in a trusted item
//! whose contract states, over those names, what the crate's code does.
//! (The `url` crate keeps 32-bit positions into the serialization and gives
//! up on URLs of gigabytes; the wrappers' length bounds, enforced at run
//! time by the builder, keep every build far below that limit.)

use vstd::prelude::*;

verus! {

#[verifier::external_type_specification]
#[verifier::external_body]
pub struct ExUrl(url::Url);

#[verifier::external_type_specification]
#[verifier::external_body]
pub struct ExUrlParseError(url::ParseError);

/// The URL's path segments (in their serialized, percent-encoded form), in
/// order: the path split at `/` after the leading slash, as
/// `url::Url::path_segments` yields them; an empty path has no segments,
/// and the root path `/` has one empty segment.
pub uninterp spec fn url_path_segments(u: url::Url) -> Seq<Seq<char>>;

/// The URL's query, read as `application/x-www-form-urlencoded` name/value
/// pairs, percent-decoded, in order.
pub uninterp spec fn url_query_pairs(u: url::Url) -> Seq<(Seq<char>, Seq<char>)>;

/// The URL's serialization as a string.
pub uninterp spec fn url_str(u: url::Url) -> Seq<char>;

/// Whether `url::Url::parse` accepts the string; parsing is a function of
/// the string alone.
pub uninterp spec fn url_parse_ok(s: Seq<char>) -> bool;

/// The URL that `url::Url::parse` yields for the string; meaningful where
/// `url_parse_ok` holds.
pub uninterp spec fn url_of(s: Seq<char>) -> url::Url;

/// Whether the URL can serve as a hierarchical base: `cannot_be_a_base` is
/// false, that is, its scheme is followed by a slash.
pub uninterp spec fn url_is_hierarchical(u: url::Url) -> bool;

/// The URL's serialization up to the start of its path: the scheme, the
/// separator and the authority (user information, host and port).
pub uninterp spec fn url_authority(u: url::Url) -> Seq<char>;

/// The URL after its query is removed, as `set_query(None)` leaves it; a
/// function of the URL alone.
pub uninterp spec fn url_after_clear_query(u: url::Url) -> url::Url;

/// The URL after one path segment is pushed, as `PathSegmentsMut::push`
/// leaves it; a function of the URL and the segment alone.
pub uninterp spec fn url_after_push(u: url::Url, segment: Seq<char>) -> url::Url;

/// The URL after one query pair is appended, as `Serializer::append_pair`
/// leaves it; a function of the URL and the pair alone.
pub uninterp spec fn url_after_append(u: url::Url, key: Seq<char>, value: Seq<char>) -> url::Url;

/// The URL after every pair of the list is appended in order.
pub open spec fn url_with_pairs(u: url::Url, params: Seq<(Seq<char>, Seq<char>)>) -> url::Url
    decreases params.len(),
{
    if params.len() == 0 {
        u
    } else {
        url_with_pairs(url_after_append(u, params[0].0, params[0].1), params.drop_first())
    }
}

/// A cap on the URL lengths the builder works with, in characters: far
/// below the `url` crate's 32-bit serialization limit even after UTF-8
/// (at most 4 bytes per character) and percent-encoding (3 characters per
/// byte) expansion.
pub const MAX_URL_LEN: usize = 0x100_0000;

/// A cap on each component (base, route, parameter text) that the builder
/// accepts at run time; small enough that the whole build stays under
/// `MAX_URL_LEN`.
pub const MAX_COMPONENT_LEN: usize = 0x80000;

/// The total character count of the pairs' keys and values.
pub open spec fn pairs_text_len(ps: Seq<(Seq<char>, Seq<char>)>) -> int
    decreases ps.len(),
{
    if ps.len() == 0 {
        0
    } else {
        ps[0].0.len() + ps[0].1.len() + pairs_text_len(ps.drop_first())
    }
}

pub(crate) proof fn lemma_pairs_text_len_nonneg(ps: Seq<(Seq<char>, Seq<char>)>)
    ensures
        pairs_text_len(ps) >= 0,
    decreases ps.len(),
{
    if ps.len() > 0 {
        lemma_pairs_text_len_nonneg(ps.drop_first());
    }
}

pub(crate) proof fn lemma_pairs_text_len_split(ps: Seq<(Seq<char>, Seq<char>)>, i: int)
    requires
        0 <= i <= ps.len(),
    ensures
        pairs_text_len(ps) == pairs_text_len(ps.take(i)) + pairs_text_len(ps.skip(i)),
    decreases i,
{
    if i == 0 {
        assert(ps.take(0) =~= Seq::<(Seq<char>, Seq<char>)>::empty());
        assert(ps.skip(0) =~= ps);
    } else {
        lemma_pairs_text_len_split(ps.drop_first(), i - 1);
        assert(ps.take(i)[0] == ps[0]);
        assert(ps.take(i).drop_first() =~= ps.drop_first().take(i - 1));
        assert(ps.skip(i) =~= ps.drop_first().skip(i - 1));
    }
}

/// An ASCII letter.
pub open spec fn ascii_alpha(c: char) -> bool {
    ('a' <= c <= 'z') || ('A' <= c <= 'Z')
}

/// A character that the `url` crate's path-segment writer passes through
/// unchanged: printable ASCII outside the path-segment percent-encode set
/// (controls, space, `"`, `<`, `>`, backtick, `#`, `?`, `{`, `}`, `/`, `%`
/// and `\` are encoded; everything non-ASCII is encoded as well).
pub open spec fn plain_path_char(c: char) -> bool {
    &&& ' ' < c <= '~'
    &&& c != '"'
    &&& c != '<'
    &&& c != '>'
    &&& c != '`'
    &&& c != '#'
    &&& c != '?'
    &&& c != '{'
    &&& c != '}'
    &&& c != '/'
    &&& c != '%'
    &&& c != '\\'
}

/// A route that survives path-segment appending letter for letter: made of
/// plain characters only; not one of the two dot segments that the writer
/// skips; and not opening like a Windows drive letter (a letter followed by
/// `:` or `|`), which the writer rewrites on `file:` URLs.
pub open spec fn plain_segment(s: Seq<char>) -> bool {
    &&& forall|i: int| 0 <= i < s.len() ==> plain_path_char(s[i])
    &&& s != "."@
    &&& s != ".."@
    &&& !(s.len() >= 2 && ascii_alpha(s[0]) && (s[1] == ':' || s[1] == '|'))
}

/// An error from URL construction.
#[derive(Debug)]
pub enum UrlError {
    /// The base URL does not parse.
    Parse(url::ParseError),
    /// The base URL parses, but cannot serve as a hierarchical base.
    CannotBeABase,
    /// A component is longer than the builder accepts.
    TooLong,
}

/// Relies on `url::Url::parse`: acceptance and the parsed value are
/// functions of the input string alone, and a rejected input returns `Err`
/// rather than panicking (an input too long for the crate's 32-bit
/// positions is rejected with its overflow error). The three fixed
/// endpoints are absolute `https` URLs, already in normalized form, so the
/// parser accepts them and serializes them as given; and `https` is a
/// special scheme, always serialized with a slash after the scheme, so the
/// parsed endpoint can serve as a hierarchical base (`cannot_be_a_base` is
/// false).
#[verifier::external_body]
pub(crate) fn url_parse(s: &str) -> (r: Result<url::Url, url::ParseError>)
    ensures
        r is Ok <==> url_parse_ok(s@),
        r matches Ok(u) ==> u == url_of(s@) && (crate::query::fixed_endpoint(s@)
            ==> url_is_hierarchical(u) && url_str(u) == s@),
        crate::query::fixed_endpoint(s@) ==> r is Ok,
{
    url::Url::parse(s)
}

/// Relies on `url::Url::as_str` and `str::len`: the byte length of the
/// URL's serialization. A UTF-8 string holds between one and four bytes
/// per character, which bounds the serialization's character count both
/// ways.
#[verifier::external_body]
pub(crate) fn url_len_bound(u: &url::Url) -> (n: usize)
    ensures
        url_str(*u).len() <= n <= 4 * url_str(*u).len(),
{
    u.as_str().len()
}

/// Relies on `str::len`: the byte length of the string. A UTF-8 string
/// holds between one and four bytes per character, which bounds the
/// character count both ways.
#[verifier::external_body]
pub(crate) fn str_len_bound(s: &str) -> (n: usize)
    ensures
        s@.len() <= n <= 4 * s@.len(),
{
    s.len()
}

/// Relies on `url::Url::set_query` with `None`: the query is removed, so
/// the URL is left without query pairs and the serialization only
/// shrinks; the scheme and authority are untouched, so whether the URL
/// can serve as a hierarchical base does not change. The bound keeps the
/// crate's 32-bit serialization positions well in range.
#[verifier::external_body]
pub(crate) fn url_clear_query(u: &mut url::Url)
    requires
        url_str(*old(u)).len() <= MAX_URL_LEN,
    ensures
        *final(u) == url_after_clear_query(*old(u)),
        url_query_pairs(*final(u)) =~= Seq::<(Seq<char>, Seq<char>)>::empty(),
        url_is_hierarchical(*final(u)) == url_is_hierarchical(*old(u)),
        url_authority(*final(u)) == url_authority(*old(u)),
        url_str(*final(u)).len() <= url_str(*old(u)).len(),
{
    u.set_query(None);
}

/// The path of a URL that holds nothing but its root slash: one empty
/// segment.
pub open spec fn root_only_path(segments: Seq<Seq<char>>) -> bool {
    segments =~= seq![Seq::<char>::empty()]
}

/// Relies on `url::Url::path_segments_mut` and `PathSegmentsMut::push`:
/// `path_segments_mut` fails (returning the URL unchanged) exactly when the
/// URL cannot serve as a hierarchical base; `push` writes one segment,
/// percent-encoded with the path-segment encode set (so a segment of plain
/// characters is written unchanged), leaves the query alone, and skips the
/// segments `"."` and `".."`. A plain segment is appended, except that on a
/// path of nothing but `/` no separating slash is added, so there the lone
/// empty segment is replaced. (On `file:` URLs the writer rewrites a first
/// segment shaped like a Windows drive letter — it normalizes `|` to `:`,
/// can split the segment, and may clear the host; `plain_segment` excludes
/// those shapes, and for other segments only the path's non-emptiness is
/// claimed.) The written segment takes at most three characters per input
/// byte plus separators, and the bound keeps the crate's 32-bit
/// serialization positions well in range.
#[verifier::external_body]
pub(crate) fn url_push_segment(u: &mut url::Url, segment: &str) -> (ok: bool)
    requires
        url_str(*old(u)).len() + segment@.len() <= MAX_URL_LEN,
    ensures
        ok == url_is_hierarchical(*old(u)),
        !ok ==> *final(u) == *old(u),
        ok ==> *final(u) == url_after_push(*old(u), segment@),
        ok ==> url_str(*final(u)).len() <= url_str(*old(u)).len() + 12 * segment@.len() + 2,
        ok && plain_segment(segment@) ==> url_authority(*final(u)) == url_authority(*old(u)),
        ok ==> url_query_pairs(*final(u)) == url_query_pairs(*old(u)),
        ok && (segment@ == "."@ || segment@ == ".."@) ==> url_path_segments(*final(u))
            == url_path_segments(*old(u)),
        ok && segment@ != "."@ && segment@ != ".."@ ==> url_path_segments(*final(u)).len() > 0,
        ok && plain_segment(segment@) ==> url_path_segments(*final(u)).last() == segment@,
        ok && plain_segment(segment@) && !root_only_path(url_path_segments(*old(u)))
            ==> url_path_segments(*final(u)) == url_path_segments(*old(u)).push(segment@),
        ok && plain_segment(segment@) && root_only_path(url_path_segments(*old(u)))
            ==> url_path_segments(*final(u)) =~= seq![segment@],
{
    match u.path_segments_mut() {
        Ok(mut segments) => {
            segments.push(segment);
            true
        },
        Err(()) => false,
    }
}

/// Relies on `url::Url::query_pairs_mut` and `Serializer::append_pair`: the
/// existing query is kept, one form-urlencoded pair is appended (so the
/// decoded pairs gain exactly `(key, value)` at the end), and the path and
/// authority are not touched. The appended text takes at most three
/// characters per input byte plus separators, and the bound keeps the
/// crate's 32-bit serialization positions well in range.
#[verifier::external_body]
pub(crate) fn url_append_query_pair(u: &mut url::Url, key: &str, value: &str)
    requires
        url_str(*old(u)).len() + key@.len() + value@.len() <= MAX_URL_LEN,
    ensures
        *final(u) == url_after_append(*old(u), key@, value@),
        url_query_pairs(*final(u)) == url_query_pairs(*old(u)).push((key@, value@)),
        url_path_segments(*final(u)) == url_path_segments(*old(u)),
        url_authority(*final(u)) == url_authority(*old(u)),
        url_str(*final(u)).len() <= url_str(*old(u)).len() + 12 * (key@.len() + value@.len())
            + 2,
{
    u.query_pairs_mut().append_pair(key, value);
}

/// Relies on `url::Url`'s `Display`: the returned string is the URL's
/// serialization. The crate maintains the round-trip invariant that parsing
/// a URL's serialization yields that URL back (its debug builds assert it
/// after every mutation), so a string short enough that reparsing cannot
/// overflow the crate's 32-bit positions parses, to this URL.
#[verifier::external_body]
pub(crate) fn url_to_string(u: &url::Url) -> (r: String)
    ensures
        r@ == url_str(*u),
        url_str(*u).len() <= MAX_URL_LEN ==> url_parse_ok(r@),
        url_str(*u).len() <= MAX_URL_LEN ==> url_of(r@) == *u,
{
    u.to_string()
}

/// What the URL builder guarantees of a finished request URL: the path ends
/// with the route segment (letter for letter when the route is plain), and
/// the query pairs are exactly the given parameters, in order.
pub open spec fn url_built_from(
    u: url::Url,
    route: Seq<char>,
    params: Seq<(Seq<char>, Seq<char>)>,
) -> bool {
    &&& plain_segment(route) ==> url_path_segments(u).len() > 0 && url_path_segments(u).last()
        == route
    &&& url_query_pairs(u) == params
}

/// Append the route as a path segment and every parameter as a query pair to
/// a freshly parsed base URL; fails, leaving the URL unchanged, exactly when
/// the URL cannot serve as a hierarchical base.
pub fn attach_route_and_params(
    u: &mut url::Url,
    route: &str,
    params: &Vec<(String, String)>,
) -> (ok: bool)
    requires
        url_str(*old(u)).len() + 12 * (route@.len() + pairs_text_len(
            crate::query::pairs_view(params@),
        )) + 2 * params@.len() + 2 <= MAX_URL_LEN,
    ensures
        ok == url_is_hierarchical(*old(u)),
        !ok ==> *final(u) == *old(u),
        ok ==> *final(u) == url_with_pairs(
            url_after_push(*old(u), route@),
            crate::query::pairs_view(params@),
        ),
        ok ==> url_str(*final(u)).len() <= MAX_URL_LEN,
        ok ==> url_query_pairs(*final(u)) =~= url_query_pairs(*old(u)) + crate::query::pairs_view(
            params@,
        ),
        ok && plain_segment(route@) ==> url_path_segments(*final(u)).len() > 0
            && url_path_segments(*final(u)).last() == route@,
        ok && plain_segment(route@) ==> url_authority(*final(u)) == url_authority(*old(u)),
{
    proof {
        lemma_pairs_text_len_nonneg(crate::query::pairs_view(params@));
    }
    if !url_push_segment(u, route) {
        return false;
    }
    let ghost pushed = *u;
    let ghost target = url_with_pairs(pushed, crate::query::pairs_view(params@));
    proof {
        assert(crate::query::pairs_view(params@).skip(0) =~= crate::query::pairs_view(params@));
    }
    let mut i: usize = 0;
    while i < params.len()
        invariant
            0 <= i <= params@.len(),
            url_with_pairs(*u, crate::query::pairs_view(params@).skip(i as int)) == target,
            url_str(*u).len() + 12 * pairs_text_len(
                crate::query::pairs_view(params@).skip(i as int),
            ) + 2 * (params@.len() - i) <= MAX_URL_LEN,
            url_query_pairs(*u) =~= url_query_pairs(pushed) + crate::query::pairs_view(
                params@,
            ).take(i as int),
            url_path_segments(*u) == url_path_segments(pushed),
            url_authority(*u) == url_authority(pushed),
        decreases params@.len() - i,
    {
        let ghost rest = crate::query::pairs_view(params@).skip(i as int);
        proof {
            assert(rest[0] == (params@[i as int].0@, params@[i as int].1@));
            assert(rest.drop_first() =~= crate::query::pairs_view(params@).skip(i + 1 as int));
            lemma_pairs_text_len_nonneg(crate::query::pairs_view(params@).skip(i + 1 as int));
        }
        let key = &params[i].0;
        let value = &params[i].1;
        url_append_query_pair(u, key.as_str(), value.as_str());
        proof {
            assert(crate::query::pairs_view(params@).take(i + 1 as int)
                =~= crate::query::pairs_view(params@).take(i as int).push(
                (params@[i as int].0@, params@[i as int].1@),
            ));
        }
        i += 1;
    }
    proof {
        assert(crate::query::pairs_view(params@).take(params@.len() as int) =~= crate::query::pairs_view(
            params@,
        ));
        assert(crate::query::pairs_view(params@).skip(params@.len() as int)
            =~= Seq::<(Seq<char>, Seq<char>)>::empty());
    }
    true
}

} // verus!
