//! Cursor-paginated feed-skeleton serving. The read-side store is modelled
//! as a sequence of post references held strictly in feed order: most recent
//! ordering key first, ties broken by a unique secondary key, so pagination
//! is deterministic. Serving never touches the write-side store.

use vstd::prelude::*;
use crate::codec::{cursor_text, spec_parse_cursor, format_cursor, parse_cursor};

verus! {

/// A post reference: an opaque content identifier plus the ordering key and
/// the unique tie-break key used for cursor continuation.
#[derive(Debug)]
pub struct PostRef {
    /// Content identifier; opaque to this core beyond its identity.
    pub uri: String,
    /// Primary ordering key (recency; larger is more recent).
    pub at: u64,
    /// Secondary unique key that breaks ordering ties.
    pub uid: u64,
}

/// Serving failures.
#[derive(Debug, Clone, Copy, PartialEq, Eq, Structural)]
pub enum ServingError {
    /// The requested algorithm is not one this service knows; surfaced as a
    /// not-found-class response, never as an empty success.
    UnknownAlgorithm,
    /// The continuation token is not one this service could have produced.
    InvalidCursor,
}

/// `(at1, uid1)` comes strictly earlier in the feed than `(at2, uid2)`:
/// more recent, or equally recent with the larger tie-break key.
pub open spec fn key_before(at1: nat, uid1: nat, at2: nat, uid2: nat) -> bool {
    at1 > at2 || (at1 == at2 && uid1 > uid2)
}

/// The feed order: strictly descending, so every key appears at most once.
pub open spec fn feed_sorted(posts: Seq<PostRef>) -> bool {
    forall|i: int, j: int|
        0 <= i < j < posts.len() ==> key_before(
            posts[i].at as nat,
            posts[i].uid as nat,
            posts[j].at as nat,
            posts[j].uid as nat,
        )
}

/// The read-side store as the serving path sees it.
#[derive(Debug)]
pub struct FeedStore {
    /// Every eligible post reference, in feed order.
    pub posts: Vec<PostRef>,
}

impl FeedStore {
    /// The store invariant: posts stand strictly in feed order.
    pub open spec fn wf(&self) -> bool {
        feed_sorted(self.posts@)
    }
}

/// One feed-skeleton request.
#[derive(Debug)]
pub struct FeedQuery {
    /// The requested algorithm identifier.
    pub feed: Option<String>,
    /// Requested page size; clamped, never trusted unbounded.
    pub limit: Option<i64>,
    /// Continuation token from an earlier response, if any.
    pub cursor: Option<String>,
}

/// One page of the feed: the references plus the continuation token that
/// names the position after the last one.
#[derive(Debug)]
pub struct FeedPage {
    /// The page contents, in feed order.
    pub refs: Vec<PostRef>,
    /// Cursor to pass back for the next page; absent when the page is empty.
    pub cursor: Option<String>,
}

/// The single algorithm identifier this generator serves.
pub open spec fn spec_supported_feed_uri() -> Seq<char> {
    "at://did:plc:w4xbfzo7kqfes5zb7r6qv3rw/app.bsky.feed.generator/blacksky"@
}

/// The single algorithm identifier this generator serves.
pub fn supported_feed_uri() -> (r: String)
    ensures
        r@ == spec_supported_feed_uri(),
{
    String::from_str("at://did:plc:w4xbfzo7kqfes5zb7r6qv3rw/app.bsky.feed.generator/blacksky")
}

/// Page size used when the request names none.
pub const DEFAULT_PAGE_LIMIT: u64 = 50;

/// Largest page size a request can obtain.
pub const MAX_PAGE_LIMIT: u64 = 100;

/// The page size actually served: the default when absent, clamped into
/// `0 ..= MAX_PAGE_LIMIT` when present.
pub open spec fn spec_effective_limit(limit: Option<i64>) -> nat {
    match limit {
        None => 50,
        Some(l) => if l < 0 {
            0
        } else if l > 100 {
            100
        } else {
            l as nat
        },
    }
}

/// The page size actually served.
pub fn effective_limit(limit: Option<i64>) -> (r: u64)
    ensures
        r as nat == spec_effective_limit(limit),
        r <= MAX_PAGE_LIMIT,
{
    match limit {
        None => DEFAULT_PAGE_LIMIT,
        Some(l) => {
            if l < 0 {
                0
            } else if l > 100 {
                MAX_PAGE_LIMIT
            } else {
                l as u64
            }
        },
    }
}

/// How many leading posts a continuation cursor skips: the longest prefix of
/// posts that do not come strictly after the cursor position.
pub open spec fn cursor_skip(posts: Seq<PostRef>, c_at: nat, c_uid: nat) -> int
    decreases posts.len(),
{
    if posts.len() == 0 {
        0
    } else if !key_before(c_at, c_uid, posts[0].at as nat, posts[0].uid as nat) {
        1 + cursor_skip(posts.drop_first(), c_at, c_uid)
    } else {
        0
    }
}

proof fn lemma_cursor_skip(posts: Seq<PostRef>, c_at: nat, c_uid: nat, k: int)
    requires
        0 <= k <= posts.len(),
        forall|j: int|
            0 <= j < k ==> !key_before(c_at, c_uid, posts[j].at as nat, posts[j].uid as nat),
        k < posts.len() ==> key_before(c_at, c_uid, posts[k].at as nat, posts[k].uid as nat),
    ensures
        cursor_skip(posts, c_at, c_uid) == k,
    decreases posts.len(),
{
    if posts.len() == 0 {
    } else if k == 0 {
    } else {
        lemma_cursor_skip(posts.drop_first(), c_at, c_uid, k - 1);
    }
}

impl FeedQuery {
    /// The request names the one supported algorithm.
    pub open spec fn algo_ok(&self) -> bool {
        self.feed is Some && self.feed->0@ == spec_supported_feed_uri()
    }

    /// The continuation token, if present, is well formed and its numbers
    /// fit the machine word.
    pub open spec fn cursor_usable(&self) -> bool {
        self.cursor is Some ==> {
            let p = spec_parse_cursor(self.cursor->0@);
            p is Some && p->Some_0.0 <= u64::MAX && p->Some_0.1 <= u64::MAX
        }
    }

    /// Index of the first post of the requested page.
    pub open spec fn start_index(&self, posts: Seq<PostRef>) -> int {
        if self.cursor is None {
            0
        } else {
            let p = spec_parse_cursor(self.cursor->0@)->Some_0;
            cursor_skip(posts, p.0, p.1)
        }
    }

    /// Number of posts the requested page holds.
    pub open spec fn page_count(&self, posts: Seq<PostRef>) -> int {
        let remaining = posts.len() - self.start_index(posts);
        if spec_effective_limit(self.limit) < remaining {
            spec_effective_limit(self.limit) as int
        } else {
            remaining
        }
    }
}

/// Serves one page of the feed skeleton from the read-side store.
///
/// An unknown algorithm is refused outright — never answered with a quietly
/// empty page — and a malformed cursor is refused as invalid. On success the
/// page is exactly the slice of the feed after the cursor position, capped
/// at the effective limit, with the continuation cursor naming the last
/// reference served.
pub fn serve(store: &FeedStore, q: &FeedQuery) -> (r: Result<FeedPage, ServingError>)
    requires
        store.wf(),
    ensures
        !q.algo_ok() ==> r == Err::<FeedPage, ServingError>(ServingError::UnknownAlgorithm),
        q.algo_ok() && !q.cursor_usable() ==> r == Err::<FeedPage, ServingError>(
            ServingError::InvalidCursor,
        ),
        q.algo_ok() && q.cursor_usable() ==> {
            let start = q.start_index(store.posts@);
            let cnt = q.page_count(store.posts@);
            &&& r is Ok
            &&& 0 <= start <= store.posts@.len()
            &&& r->Ok_0.refs@.len() == cnt
            &&& forall|m: int|
                0 <= m < cnt ==> r->Ok_0.refs@[m].uri@ == store.posts@[start + m].uri@
                    && r->Ok_0.refs@[m].at == store.posts@[start + m].at
                    && r->Ok_0.refs@[m].uid == store.posts@[start + m].uid
            &&& cnt > 0 ==> r->Ok_0.cursor is Some && r->Ok_0.cursor->0@ == cursor_text(
                store.posts@[start + cnt - 1].at as nat,
                store.posts@[start + cnt - 1].uid as nat,
            )
            &&& cnt == 0 ==> r->Ok_0.cursor is None
        },
{
    let feed = match &q.feed {
        None => { return Err(ServingError::UnknownAlgorithm) },
        Some(f) => f,
    };
    let supported = supported_feed_uri();
    if !(*feed == supported) {
        return Err(ServingError::UnknownAlgorithm);
    }
    let n = store.posts.len();
    let mut start: usize = 0;
    match &q.cursor {
        None => {},
        Some(ctext) => {
            let (c_at, c_uid) = match parse_cursor(ctext.as_str()) {
                None => { return Err(ServingError::InvalidCursor) },
                Some(pos) => pos,
            };
            while start < n
                invariant
                    n == store.posts@.len(),
                    0 <= start <= n,
                    forall|j: int|
                        0 <= j < start ==> !key_before(
                            c_at as nat,
                            c_uid as nat,
                            store.posts@[j].at as nat,
                            store.posts@[j].uid as nat,
                        ),
                ensures
                    0 <= start <= n,
                    forall|j: int|
                        0 <= j < start ==> !key_before(
                            c_at as nat,
                            c_uid as nat,
                            store.posts@[j].at as nat,
                            store.posts@[j].uid as nat,
                        ),
                    start < n ==> key_before(
                        c_at as nat,
                        c_uid as nat,
                        store.posts@[start as int].at as nat,
                        store.posts@[start as int].uid as nat,
                    ),
                decreases n - start,
            {
                let p = &store.posts[start];
                if c_at > p.at || (c_at == p.at && c_uid > p.uid) {
                    break ;
                }
                start = start + 1;
            }
            proof {
                lemma_cursor_skip(store.posts@, c_at as nat, c_uid as nat, start as int);
            }
        },
    }
    let limit = effective_limit(q.limit);
    let remaining = n - start;
    let take: usize = if (limit as usize) < remaining {
        limit as usize
    } else {
        remaining
    };
    let mut refs: Vec<PostRef> = Vec::new();
    let mut k: usize = 0;
    while k < take
        invariant
            n == store.posts@.len(),
            0 <= start,
            start + take <= n,
            0 <= k <= take,
            refs@.len() == k,
            forall|m: int|
                0 <= m < k ==> refs@[m].uri@ == store.posts@[start + m].uri@ && refs@[m].at
                    == store.posts@[start + m].at && refs@[m].uid == store.posts@[start + m].uid,
        decreases take - k,
    {
        let p = &store.posts[start + k];
        refs.push(PostRef { uri: p.uri.clone(), at: p.at, uid: p.uid });
        k = k + 1;
    }
    let cursor = if take > 0 {
        let last = &store.posts[start + take - 1];
        Some(format_cursor(last.at, last.uid))
    } else {
        None
    };
    Ok(FeedPage { refs, cursor })
}

/// Pagination is deterministic and exhaustive: the cursor returned with a
/// non-empty page names exactly the position where the next page begins, so
/// repeated calls walk adjacent windows of the feed — every eligible
/// reference is enumerated exactly once, with no duplicate and no gap.
pub proof fn lemma_pages_adjacent(posts: Seq<PostRef>, start: int, cnt: int)
    requires
        feed_sorted(posts),
        0 <= start,
        cnt >= 1,
        start + cnt <= posts.len(),
    ensures
        cursor_skip(posts, posts[start + cnt - 1].at as nat, posts[start + cnt - 1].uid as nat)
            == start + cnt,
{
    let last = start + cnt - 1;
    let c_at = posts[last].at as nat;
    let c_uid = posts[last].uid as nat;
    assert forall|j: int| 0 <= j < start + cnt implies !key_before(
        c_at,
        c_uid,
        posts[j].at as nat,
        posts[j].uid as nat,
    ) by {
        if j < last {
            assert(key_before(
                posts[j].at as nat,
                posts[j].uid as nat,
                posts[last].at as nat,
                posts[last].uid as nat,
            ));
        }
    }
    if start + cnt < posts.len() {
        assert(key_before(
            posts[last].at as nat,
            posts[last].uid as nat,
            posts[start + cnt].at as nat,
            posts[start + cnt].uid as nat,
        ));
    }
    lemma_cursor_skip(posts, c_at, c_uid, start + cnt);
}

/// The continuation text returned with a non-empty page — the cursor for
/// its last reference — parses back to exactly that position, and a second
/// request carrying it starts exactly where the first page ended: no
/// duplicate, no gap, whatever limit either request used.
pub proof fn lemma_pagination_deterministic(
    posts: Seq<PostRef>,
    start: int,
    cnt: int,
    q2: FeedQuery,
)
    requires
        feed_sorted(posts),
        0 <= start,
        cnt >= 1,
        start + cnt <= posts.len(),
        q2.cursor is Some,
        q2.cursor->0@ == cursor_text(
            posts[start + cnt - 1].at as nat,
            posts[start + cnt - 1].uid as nat,
        ),
    ensures
        q2.cursor_usable(),
        q2.start_index(posts) == start + cnt,
{
    let last = posts[start + cnt - 1];
    crate::codec::lemma_cursor_round_trip(last.at as nat, last.uid as nat);
    lemma_pages_adjacent(posts, start, cnt);
}

/// A page request without a cursor starts at the head of the feed, and a
/// page served below its limit exhausts the feed: together with the
/// adjacency of consecutive pages this pins the whole enumeration.
pub proof fn lemma_pagination_progress(posts: Seq<PostRef>, q: FeedQuery)
    requires
        feed_sorted(posts),
        q.cursor is None,
    ensures
        q.start_index(posts) == 0,
        q.page_count(posts) < spec_effective_limit(q.limit) ==> q.start_index(posts)
            + q.page_count(posts) == posts.len(),
{
}

} // verus!
