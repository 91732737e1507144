//! Paging through results.
//!
//! A `Fetch` is the state of one multi-page fetch: the caller's limit, the
//! current page size, the records accumulated so far, and whether the fetch
//! is complete. The HTTP transport lives outside the library: a driver asks
//! `next_request_size` what to request, performs the GET, and hands the body
//! back to `apply_page`; `page_step` is the exact relation between the state
//! before and after one applied page.

use crate::json;
use crate::query::str_eq;
use crate::query::Query;
use crate::MAX_PAGE_SIZE;
use vstd::arithmetic::div_mod::lemma_fundamental_div_mod_converse;
use vstd::prelude::*;

verus! {

/// An error that ends a multi-page fetch.
#[derive(Debug)]
pub enum FetchError {
    /// The response body is not valid JSON although the JSON format was
    /// configured.
    Decode(serde_json::Error),
}

/// The state of one multi-page fetch.
pub struct Fetch {
    limit: usize,
    page_size: usize,
    json: bool,
    results: Vec<serde_json::Value>,
    requests: Ghost<nat>,
    done: bool,
}

impl Fetch {
    /// The caller's result limit.
    pub closed spec fn limit(self) -> int {
        self.limit as int
    }

    /// The page size most recently used (initially, the limit capped at the
    /// server's maximum).
    pub closed spec fn page_size(self) -> int {
        self.page_size as int
    }

    /// Whether response bodies are read as JSON feed envelopes.
    pub closed spec fn is_json(self) -> bool {
        self.json
    }

    /// The records accumulated so far.
    pub closed spec fn results(self) -> Seq<serde_json::Value> {
        self.results@
    }

    /// How many pages have been requested and applied.
    pub closed spec fn requests(self) -> nat {
        self.requests@
    }

    /// Whether the fetch is complete.
    pub closed spec fn done(self) -> bool {
        self.done
    }

    /// The size of the next page to request: the count still needed, capped
    /// at the page size used so far.
    pub open spec fn next_size(self) -> int {
        let remaining = if self.limit() - self.results().len() >= 0 {
            self.limit() - self.results().len()
        } else {
            0
        };
        if remaining < self.page_size() {
            remaining
        } else {
            self.page_size()
        }
    }

    /// The page size to ask the server for on the next request, or `None`
    /// when the fetch is complete and no further request is to be issued.
    pub fn next_request_size(&self) -> (r: Option<usize>)
        ensures
            self.done() <==> r is None,
            r matches Some(s) ==> s as int == self.next_size(),
    {
        if self.done {
            return None;
        }
        let remaining = if self.limit > self.results.len() {
            self.limit - self.results.len()
        } else {
            0
        };
        Some(
            if remaining < self.page_size {
                remaining
            } else {
                self.page_size
            },
        )
    }

    /// Apply one page of the server's response. The body is read as the
    /// configured format: a JSON feed envelope, whose records are appended,
    /// or raw text, appended as the single value that wraps the body as a
    /// JSON string. The fetch becomes
    /// complete when the page held fewer records than requested (the server
    /// has no more data) or the accumulated count has reached the limit; a
    /// body that is not valid JSON ends the fetch with a decode error and
    /// leaves the state unchanged. Applying a page to a complete fetch does
    /// nothing.
    pub fn apply_page(&mut self, body: &str) -> (r: Result<(), FetchError>)
        ensures
            old(self).done() ==> r is Ok && same_fetch(*final(self), *old(self)),
            !old(self).done() && old(self).is_json() && json::json_parses(body@) ==> r is Ok
                && page_step(*old(self), *final(self), json::feed_entries_of(body@)),
            !old(self).done() && old(self).is_json() && !json::json_parses(body@) ==> r is Err
                && same_fetch(*final(self), *old(self)),
            !old(self).done() && !old(self).is_json() ==> r is Ok && page_step(
                *old(self),
                *final(self),
                seq![json::json_string_of(body@)],
            ),
    {
        if self.done {
            return Ok(());
        }
        let remaining = if self.limit > self.results.len() {
            self.limit - self.results.len()
        } else {
            0
        };
        let size = if remaining < self.page_size {
            remaining
        } else {
            self.page_size
        };
        if self.json {
            match json::parse_feed_entries(body) {
                Ok(mut entries) => {
                    let count = entries.len();
                    self.results.append(&mut entries);
                    self.page_size = size;
                    self.requests = Ghost(self.requests@ + 1);
                    self.done = count < size || self.results.len() >= self.limit;
                    Ok(())
                },
                Err(e) => Err(FetchError::Decode(e)),
            }
        } else {
            let value = json::text_value(body);
            let ghost entries = seq![json::json_string_of(body@)];
            self.results.push(value);
            self.page_size = size;
            self.requests = Ghost(self.requests@ + 1);
            self.done = 1 < size || self.results.len() >= self.limit;
            proof {
                assert(self.results@ =~= old(self).results@ + entries);
                assert(page_step(*old(self), *self, entries));
            }
            Ok(())
        }
    }

    /// Whether the fetch is complete.
    pub fn is_done(&self) -> (r: bool)
        ensures
            r == self.done(),
    {
        self.done
    }

    /// How many records have been accumulated so far.
    pub fn result_count(&self) -> (r: usize)
        ensures
            r == self.results().len(),
    {
        self.results.len()
    }

    /// The accumulated records.
    pub fn into_results(self) -> (r: Vec<serde_json::Value>)
        ensures
            r@ == self.results(),
    {
        self.results
    }
}

impl Query {
    /// Begin a fetch of up to `limit` records, paged by the configured
    /// format. A limit of zero is complete from the start: no request is
    /// issued for it.
    pub fn start_fetch(&self, limit: usize) -> (f: Fetch)
        ensures
            f.limit() == limit,
            f.page_size() == effective_page_size(limit as int),
            f.is_json() == (self.format@ == "json"@),
            f.results() =~= Seq::<serde_json::Value>::empty(),
            f.requests() == 0,
            f.done() == (limit == 0),
    {
        Fetch {
            limit,
            page_size: if limit < MAX_PAGE_SIZE {
                limit
            } else {
                MAX_PAGE_SIZE
            },
            json: str_eq(self.format.as_str(), "json"),
            results: Vec::new(),
            requests: Ghost(0),
            done: limit == 0,
        }
    }
}

/// The two fetch states agree in every observable part.
pub open spec fn same_fetch(a: Fetch, b: Fetch) -> bool {
    &&& a.limit() == b.limit()
    &&& a.page_size() == b.page_size()
    &&& a.is_json() == b.is_json()
    &&& a.results() == b.results()
    &&& a.requests() == b.requests()
    &&& a.done() == b.done()
}

/// How one applied page changes the fetch state: the page was requested with
/// `pre.next_size()`, its records are appended, the request count grows by
/// one, and the fetch is complete exactly when the page was short or the
/// limit has been reached.
pub open spec fn page_step(pre: Fetch, post: Fetch, entries: Seq<serde_json::Value>) -> bool {
    &&& !pre.done()
    &&& post.limit() == pre.limit()
    &&& post.is_json() == pre.is_json()
    &&& post.page_size() == pre.next_size()
    &&& post.results() == pre.results() + entries
    &&& post.requests() == pre.requests() + 1
    &&& post.done() == (entries.len() < pre.next_size() || pre.results().len() + entries.len()
        >= pre.limit())
}

/// The page size the fetch settles on: the limit, capped at the server's
/// maximum.
pub open spec fn effective_page_size(limit: int) -> int {
    if limit < MAX_PAGE_SIZE {
        limit
    } else {
        MAX_PAGE_SIZE as int
    }
}

/// The least number of pages of size `b` that cover `a`.
pub open spec fn div_ceil(a: int, b: int) -> int {
    (a + b - 1) / b
}

/// A page with fewer records than requested, before the limit is reached or
/// after, completes the fetch: the records gathered so far are kept and no
/// further request is issued.
pub proof fn lemma_short_page_stops(pre: Fetch, post: Fetch, entries: Seq<serde_json::Value>)
    requires
        page_step(pre, post, entries),
        entries.len() < pre.next_size(),
    ensures
        post.done(),
{
}

/// For a limit within one page, a single server-compliant page completes the
/// fetch: exactly one request was issued and at most `limit` records are
/// returned.
pub proof fn lemma_single_page(pre: Fetch, post: Fetch, entries: Seq<serde_json::Value>)
    requires
        !pre.done(),
        pre.results().len() == 0,
        pre.requests() == 0,
        pre.page_size() == pre.limit(),
        page_step(pre, post, entries),
        entries.len() <= pre.next_size(),
    ensures
        post.done(),
        post.requests() == 1,
        post.results().len() <= pre.limit(),
{
}

/// Against a server that returns no more records than asked for, the
/// accumulated count never exceeds the limit by more than one page's worth,
/// and the page size never exceeds the server's maximum: both bounds are
/// kept by every applied page.
pub proof fn lemma_results_bounded(pre: Fetch, post: Fetch, entries: Seq<serde_json::Value>)
    requires
        page_step(pre, post, entries),
        entries.len() <= pre.next_size(),
        pre.results().len() <= pre.limit() + MAX_PAGE_SIZE,
        pre.page_size() <= MAX_PAGE_SIZE,
    ensures
        post.results().len() <= post.limit() + MAX_PAGE_SIZE,
        post.page_size() <= MAX_PAGE_SIZE,
{
}

/// The invariant of a fetch run in which every page so far came back full:
/// the request count times the effective page size is exactly the record
/// count.
pub open spec fn all_pages_full_so_far(f: Fetch) -> bool {
    &&& !f.done()
    &&& 0 < f.limit()
    &&& f.page_size() == effective_page_size(f.limit())
    &&& f.results().len() == f.requests() * effective_page_size(f.limit())
    &&& f.results().len() < f.limit()
}

/// A fresh fetch with a positive limit starts a full-page run.
pub proof fn lemma_start_full_run(f: Fetch)
    requires
        !f.done(),
        0 < f.limit(),
        f.results().len() == 0,
        f.requests() == 0,
        f.page_size() == effective_page_size(f.limit()),
    ensures
        all_pages_full_so_far(f),
{
    assert(0 * effective_page_size(f.limit()) == 0) by (nonlinear_arith);
}

/// While every page comes back full, the run invariant is kept; and when
/// such a run completes, the number of requests issued is exactly
/// `ceil(limit / effective_page_size)`.
pub proof fn lemma_full_pages_request_count(
    pre: Fetch,
    post: Fetch,
    entries: Seq<serde_json::Value>,
)
    requires
        all_pages_full_so_far(pre),
        page_step(pre, post, entries),
        entries.len() == pre.next_size(),
    ensures
        !post.done() ==> all_pages_full_so_far(post),
        post.done() ==> post.requests() == div_ceil(
            pre.limit(),
            effective_page_size(pre.limit()),
        ),
{
    let e = effective_page_size(pre.limit());
    let k = pre.requests() as int;
    let total = pre.results().len() as int;
    let remaining = pre.limit() - total;
    assert(1 <= e);
    assert(1 <= remaining);
    if post.done() {
        assert(total + entries.len() >= pre.limit());
        let r = pre.limit() - k * e;
        assert(1 <= r <= e) by {
            assert(entries.len() <= e);
        }
        assert(pre.limit() + e - 1 == (k + 1) * e + (r - 1)) by (nonlinear_arith)
            requires
                r == pre.limit() - k * e,
        ;
        lemma_fundamental_div_mod_converse(pre.limit() + e - 1, e, k + 1, r - 1);
    } else {
        assert(remaining >= e) by {
            if remaining < e {
                assert(entries.len() == remaining);
            }
        }
        assert((k + 1) * e == k * e + e) by (nonlinear_arith);
    }
}

} // verus!
