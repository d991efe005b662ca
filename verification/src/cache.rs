//! The cache of resolved URLs: rows as they are stored, how results are written
//! to and read from them, and when they expire.

use crate::classifier::{category_name, category_of_name, UrlCategory};
use crate::json::{json_strings, json_strings_text, parse_strings, write_strings};
use crate::resolver::{ResolveModel, ResolveResult};
use crate::text::{clone_opt, opt_text, owned, same_text};
use vstd::prelude::*;

verus! {

/// How long an entry is served, by default: ten minutes.
pub const DEFAULT_TTL_SECS: u64 = 600;

/// How long an entry is kept at most: one hour.
pub const CLEANUP_AGE_SECS: i64 = 3600;

/// `std::time::SystemTime::now` as seconds since the Unix epoch. Nothing is
/// claimed of the value.
#[verifier::external_body]
pub(crate) fn now_epoch_secs() -> (r: i64) {
    let since = std::time::SystemTime::now().duration_since(std::time::UNIX_EPOCH);
    since.unwrap_or_default().as_secs() as i64
}

// ---------------------------------------------------------------------------
// Signed columns
// ---------------------------------------------------------------------------

/// The signed number with the same 64 bits.
pub open spec fn signed64(n: u64) -> i64 {
    if n <= i64::MAX {
        n as i64
    } else {
        (n - 0x1_0000_0000_0000_0000) as i64
    }
}

/// The unsigned number with the same 64 bits.
pub open spec fn unsigned64(n: i64) -> u64 {
    if n >= 0 {
        n as u64
    } else {
        (n + 0x1_0000_0000_0000_0000) as u64
    }
}

/// The signed number with the same 32 bits.
pub open spec fn signed32(n: u32) -> i32 {
    if n <= i32::MAX {
        n as i32
    } else {
        (n - 0x1_0000_0000) as i32
    }
}

/// The unsigned number with the same 32 bits.
pub open spec fn unsigned32(n: i32) -> u32 {
    if n >= 0 {
        n as u32
    } else {
        (n + 0x1_0000_0000) as u32
    }
}

pub open spec fn opt_signed64(n: Option<u64>) -> Option<i64> {
    match n {
        Some(v) => Some(signed64(v)),
        None => None,
    }
}

pub open spec fn opt_unsigned64(n: Option<i64>) -> Option<u64> {
    match n {
        Some(v) => Some(unsigned64(v)),
        None => None,
    }
}

pub open spec fn opt_signed32(n: Option<u32>) -> Option<i32> {
    match n {
        Some(v) => Some(signed32(v)),
        None => None,
    }
}

pub open spec fn opt_unsigned32(n: Option<i32>) -> Option<u32> {
    match n {
        Some(v) => Some(unsigned32(v)),
        None => None,
    }
}

/// The signed number with the same 64 bits.
pub fn to_signed64(n: u64) -> (r: i64)
    ensures
        r == signed64(n),
{
    if n <= 0x7fff_ffff_ffff_ffff {
        n as i64
    } else {
        -((u64::MAX - n) as i64) - 1
    }
}

/// The unsigned number with the same 64 bits.
pub fn to_unsigned64(n: i64) -> (r: u64)
    ensures
        r == unsigned64(n),
{
    if n >= 0 {
        n as u64
    } else {
        u64::MAX - ((-(n + 1)) as u64)
    }
}

/// The signed number with the same 32 bits.
pub fn to_signed32(n: u32) -> (r: i32)
    ensures
        r == signed32(n),
{
    if n <= 0x7fff_ffff {
        n as i32
    } else {
        -((u32::MAX - n) as i32) - 1
    }
}

/// The unsigned number with the same 32 bits.
pub fn to_unsigned32(n: i32) -> (r: u32)
    ensures
        r == unsigned32(n),
{
    if n >= 0 {
        n as u32
    } else {
        u32::MAX - ((-(n + 1)) as u32)
    }
}

// ---------------------------------------------------------------------------
// Rows
// ---------------------------------------------------------------------------

/// A row of the cache table.
#[derive(Debug, Clone)]
pub struct CacheRow {
    pub source_url: String,
    pub direct_url: String,
    pub audio_url: Option<String>,
    pub category: String,
    pub mime_type: Option<String>,
    pub content_length: Option<i64>,
    pub used_tor: i32,
    pub title: Option<String>,
    pub duration: Option<i64>,
    pub thumbnail: Option<String>,
    pub vcodec: Option<String>,
    pub acodec: Option<String>,
    pub width: Option<i32>,
    pub height: Option<i32>,
    /// JSON array of language codes.
    pub subtitle_tracks: String,
    /// Unix epoch seconds of the resolution.
    pub resolved_at: i64,
}

/// Mathematical counterpart of [`CacheRow`].
pub struct RowModel {
    pub source_url: Seq<char>,
    pub direct_url: Seq<char>,
    pub audio_url: Option<Seq<char>>,
    pub category: Seq<char>,
    pub mime_type: Option<Seq<char>>,
    pub content_length: Option<i64>,
    pub used_tor: i32,
    pub title: Option<Seq<char>>,
    pub duration: Option<i64>,
    pub thumbnail: Option<Seq<char>>,
    pub vcodec: Option<Seq<char>>,
    pub acodec: Option<Seq<char>>,
    pub width: Option<i32>,
    pub height: Option<i32>,
    pub subtitle_tracks: Seq<char>,
    pub resolved_at: i64,
}

impl View for CacheRow {
    type V = RowModel;

    open spec fn view(&self) -> RowModel {
        RowModel {
            source_url: self.source_url@,
            direct_url: self.direct_url@,
            audio_url: opt_text(self.audio_url),
            category: self.category@,
            mime_type: opt_text(self.mime_type),
            content_length: self.content_length,
            used_tor: self.used_tor,
            title: opt_text(self.title),
            duration: self.duration,
            thumbnail: opt_text(self.thumbnail),
            vcodec: opt_text(self.vcodec),
            acodec: opt_text(self.acodec),
            width: self.width,
            height: self.height,
            subtitle_tracks: self.subtitle_tracks@,
            resolved_at: self.resolved_at,
        }
    }
}

/// The row that a result is stored in at a given time.
pub open spec fn row_of(result: ResolveModel, now: i64) -> RowModel {
    RowModel {
        source_url: result.source_url,
        direct_url: result.direct_url,
        audio_url: result.audio_url,
        category: category_name(result.category),
        mime_type: result.mime_type,
        content_length: opt_signed64(result.content_length),
        used_tor: if result.used_tor {
            1
        } else {
            0
        },
        title: result.title,
        duration: opt_signed64(result.duration),
        thumbnail: result.thumbnail,
        vcodec: result.vcodec,
        acodec: result.acodec,
        width: opt_signed32(result.width),
        height: opt_signed32(result.height),
        subtitle_tracks: match json_strings_text(result.subtitle_tracks) {
            Some(t) => t,
            None => "[]"@,
        },
        resolved_at: now,
    }
}

/// The result that a row holds.
pub open spec fn result_of(row: RowModel) -> ResolveModel {
    ResolveModel {
        source_url: row.source_url,
        direct_url: row.direct_url,
        audio_url: row.audio_url,
        category: category_of_name(row.category),
        mime_type: row.mime_type,
        content_length: opt_unsigned64(row.content_length),
        used_tor: row.used_tor != 0,
        title: row.title,
        duration: opt_unsigned64(row.duration),
        thumbnail: row.thumbnail,
        vcodec: row.vcodec,
        acodec: row.acodec,
        width: opt_unsigned32(row.width),
        height: opt_unsigned32(row.height),
        subtitle_tracks: match json_strings(row.subtitle_tracks) {
            Some(items) => items,
            None => Seq::empty(),
        },
        cookies: Seq::empty(),
        resolver_type: Seq::empty(),
    }
}

/// What the table keeps of a result: all but its cookies and resolver type.
pub open spec fn stored(result: ResolveModel) -> ResolveModel {
    ResolveModel { cookies: Seq::empty(), resolver_type: Seq::empty(), ..result }
}

/// The row to store a result in. Reading it gives back what the table keeps of
/// the result.
pub fn make_row(result: &ResolveResult, now: i64) -> (r: CacheRow)
    ensures
        r@ == row_of(result@, now),
        result_of(r@) == stored(result@),
{
    let tracks = write_strings(&result.subtitle_tracks);
    let r = CacheRow {
        source_url: owned(result.source_url.as_str()),
        direct_url: owned(result.direct_url.as_str()),
        audio_url: clone_opt(&result.audio_url),
        category: result.category.name(),
        mime_type: clone_opt(&result.mime_type),
        content_length: match result.content_length {
            Some(n) => Some(to_signed64(n)),
            None => None,
        },
        used_tor: if result.used_tor {
            1
        } else {
            0
        },
        title: clone_opt(&result.title),
        duration: match result.duration {
            Some(n) => Some(to_signed64(n)),
            None => None,
        },
        thumbnail: clone_opt(&result.thumbnail),
        vcodec: clone_opt(&result.vcodec),
        acodec: clone_opt(&result.acodec),
        width: match result.width {
            Some(n) => Some(to_signed32(n)),
            None => None,
        },
        height: match result.height {
            Some(n) => Some(to_signed32(n)),
            None => None,
        },
        subtitle_tracks: match tracks {
            Some(t) => t,
            None => owned("[]"),
        },
        resolved_at: now,
    };
    proof {
        crate::classifier::lemma_category_name_round_trip(result.category);
    }
    r
}

/// Convert a database row into a result.
pub fn row_to_resolve_result(row: &CacheRow) -> (r: ResolveResult)
    ensures
        r@ == result_of(row@),
{
    let subtitle_tracks = match parse_strings(row.subtitle_tracks.as_str()) {
        Some(items) => items,
        None => Vec::new(),
    };
    let r = ResolveResult {
        source_url: owned(row.source_url.as_str()),
        direct_url: owned(row.direct_url.as_str()),
        audio_url: clone_opt(&row.audio_url),
        category: UrlCategory::from_str(row.category.as_str()),
        mime_type: clone_opt(&row.mime_type),
        content_length: match row.content_length {
            Some(n) => Some(to_unsigned64(n)),
            None => None,
        },
        used_tor: row.used_tor != 0,
        title: clone_opt(&row.title),
        duration: match row.duration {
            Some(n) => Some(to_unsigned64(n)),
            None => None,
        },
        thumbnail: clone_opt(&row.thumbnail),
        vcodec: clone_opt(&row.vcodec),
        acodec: clone_opt(&row.acodec),
        width: match row.width {
            Some(n) => Some(to_unsigned32(n)),
            None => None,
        },
        height: match row.height {
            Some(n) => Some(to_unsigned32(n)),
            None => None,
        },
        subtitle_tracks,
        cookies: Vec::new(),
        resolver_type: String::new(),
    };
    proof {
        assert(r@.cookies =~= Seq::empty());
        match json_strings(row@.subtitle_tracks) {
            Some(items) => {},
            None => assert(r@.subtitle_tracks =~= Seq::empty()),
        }
    }
    r
}

// ---------------------------------------------------------------------------
// The table
// ---------------------------------------------------------------------------

/// The moment `secs` before `now`, in the arithmetic of 64 bits.
pub open spec fn moment_before(now: i64, secs: i64) -> i64 {
    let t = now - secs;
    if t > i64::MAX {
        (t - 0x1_0000_0000_0000_0000) as i64
    } else if t < i64::MIN {
        (t + 0x1_0000_0000_0000_0000) as i64
    } else {
        t as i64
    }
}

/// The rows of all other URLs.
pub open spec fn without_url(rows: Seq<RowModel>, url: Seq<char>) -> Seq<RowModel> {
    rows.filter(|r: RowModel| r.source_url != url)
}

/// The rows resolved at `cutoff` or later.
pub open spec fn not_before(rows: Seq<RowModel>, cutoff: i64) -> Seq<RowModel> {
    rows.filter(|r: RowModel| r.resolved_at >= cutoff)
}

/// The rows that are not expired: those resolved after the cutoff.
pub open spec fn unexpired(rows: Seq<RowModel>, cutoff: i64) -> Seq<RowModel> {
    rows.filter(|r: RowModel| r.resolved_at > cutoff)
}

/// The index of the first row of a URL, from `i` on.
pub open spec fn row_index(rows: Seq<RowModel>, url: Seq<char>, i: int) -> Option<int>
    decreases rows.len() - i,
{
    if i < 0 || i >= rows.len() {
        None
    } else if rows[i].source_url == url {
        Some(i)
    } else {
        row_index(rows, url, i + 1)
    }
}

/// What the table serves for a URL: its row, where that was resolved after the
/// cutoff.
pub open spec fn served(rows: Seq<RowModel>, url: Seq<char>, cutoff: i64) -> Option<ResolveModel> {
    match row_index(rows, url, 0) {
        Some(k) => if rows[k].resolved_at > cutoff {
            Some(result_of(rows[k]))
        } else {
            None
        },
        None => None,
    }
}

/// The table after a result was inserted: it replaces the row of its URL, and
/// rows older than an hour are gone.
pub open spec fn inserted(rows: Seq<RowModel>, result: ResolveModel, now: i64) -> Seq<RowModel> {
    not_before(
        without_url(rows, result.source_url).push(row_of(result, now)),
        moment_before(now, CLEANUP_AGE_SECS),
    )
}

/// Whether no URL has two rows.
pub open spec fn urls_unique(rows: Seq<RowModel>) -> bool {
    forall|i: int, j: int|
        0 <= i < j < rows.len() ==> (#[trigger] rows[i]).source_url != (
        #[trigger] rows[j]).source_url
}

/// Cache of resolved URLs, with at most one row per URL.
#[derive(Debug)]
pub struct ResolveCache {
    rows: Vec<CacheRow>,
    ttl_secs: u64,
}

/// The models of a list of rows.
pub open spec fn row_models(rows: Seq<CacheRow>) -> Seq<RowModel> {
    Seq::new(rows.len(), |i: int| rows[i]@)
}

impl View for ResolveCache {
    type V = Seq<RowModel>;

    /// The rows, in the order in which they were last written.
    closed spec fn view(&self) -> Seq<RowModel> {
        row_models(self.rows@)
    }
}

impl Default for ResolveCache {
    fn default() -> (r: Self)
        ensures
            r@ == Seq::<RowModel>::empty(),
            r.ttl() == DEFAULT_TTL_SECS,
            r.well_formed(),
    {
        ResolveCache::new()
    }
}

impl ResolveCache {
    /// How long an entry is served, in seconds.
    pub closed spec fn ttl(&self) -> u64 {
        self.ttl_secs
    }

    /// No URL has two rows.
    pub open spec fn well_formed(&self) -> bool {
        urls_unique(self@)
    }

    /// The last moment whose entries are expired.
    pub open spec fn cutoff(&self, now: i64) -> i64 {
        moment_before(now, signed64(self.ttl()))
    }

    /// Create a new cache with the default TTL.
    pub fn new() -> (r: Self)
        ensures
            r@ == Seq::<RowModel>::empty(),
            r.ttl() == DEFAULT_TTL_SECS,
            r.well_formed(),
    {
        ResolveCache::with_ttl(DEFAULT_TTL_SECS)
    }

    /// Create a new cache with a custom TTL in seconds.
    pub fn with_ttl(ttl_secs: u64) -> (r: Self)
        ensures
            r@ == Seq::<RowModel>::empty(),
            r.ttl() == ttl_secs,
            r.well_formed(),
    {
        let r = ResolveCache { rows: Vec::new(), ttl_secs };
        assert(r@ =~= Seq::<RowModel>::empty());
        r
    }

    /// Create a cache from stored rows. Of several rows of one URL, the last
    /// is kept.
    pub fn from_rows(rows: Vec<CacheRow>, ttl_secs: u64) -> (r: Self)
        ensures
            r@ == last_rows(row_models(rows@), rows@.len() as int),
            r.ttl() == ttl_secs,
            r.well_formed(),
    {
        let ghost all = row_models(rows@);
        let mut left = rows;
        let mut cache = ResolveCache::with_ttl(ttl_secs);
        let mut done: usize = 0;
        let total: usize = left.len();
        assert(all.skip(0) =~= all);
        while done < total
            invariant
                done <= total == all.len(),
                row_models(left@) == all.skip(done as int),
                cache@ == last_rows(all, done as int),
                cache.ttl() == ttl_secs,
                cache.well_formed(),
            decreases total - done,
        {
            assert(row_models(left@).len() == left@.len());
            let ghost before = left@;
            let row = left.remove(0);
            assert(row@ == all[done as int]) by {
                assert(row_models(before)[0] == all.skip(done as int)[0]);
            }
            assert(row_models(left@) =~= all.skip(done + 1)) by {
                assert forall|i: int| 0 <= i < left@.len() implies row_models(left@)[i]
                    == all.skip(done + 1)[i] by {
                    assert(row_models(before)[i + 1] == all.skip(done as int)[i + 1]);
                }
            }
            cache.put(row);
            done = done + 1;
        }
        cache
    }

    /// Replaces the row of a URL.
    fn put(&mut self, row: CacheRow)
        requires
            old(self).well_formed(),
        ensures
            final(self)@ == without_url(old(self)@, row@.source_url).push(row@),
            final(self).ttl() == old(self).ttl(),
            final(self).well_formed(),
    {
        self.delete(row.source_url.as_str());
        proof {
            lemma_without_url(old(self)@, row@.source_url);
        }
        self.rows.push(row);
        assert(self@ =~= without_url(old(self)@, row@.source_url).push(row@));
    }

    /// Insert a resolution result at a given time, replacing the row of its
    /// URL, and drop rows older than an hour. What the table keeps of the
    /// result is served from then on, up to the cutoff.
    pub fn insert_at(&mut self, result: &ResolveResult, now: i64)
        requires
            old(self).well_formed(),
        ensures
            final(self)@ == inserted(old(self)@, result@, now),
            now - CLEANUP_AGE_SECS >= i64::MIN ==> forall|cutoff: i64|
                now > cutoff ==> #[trigger] served(final(self)@, result@.source_url, cutoff)
                    == Some(stored(result@)),
            final(self).ttl() == old(self).ttl(),
            final(self).well_formed(),
    {
        let row = make_row(result, now);
        self.put(row);
        let cutoff: i64 = now.wrapping_sub(CLEANUP_AGE_SECS);
        self.drop_before(cutoff);
        proof {
            if now - CLEANUP_AGE_SECS >= i64::MIN {
                assert forall|later: i64| now > later implies #[trigger] served(
                    self@,
                    result@.source_url,
                    later,
                ) == Some(stored(result@)) by {
                    lemma_inserted_is_served(old(self)@, result@, now, later);
                }
            }
        }
    }

    /// Insert a resolution result at the current time. It is stored under its
    /// own source URL.
    pub fn insert(&mut self, _url: &str, result: ResolveResult)
        requires
            old(self).well_formed(),
        ensures
            exists|now: i64| final(self)@ == #[trigger] inserted(old(self)@, result@, now),
            final(self).ttl() == old(self).ttl(),
            final(self).well_formed(),
    {
        let now: i64 = now_epoch_secs();
        self.insert_at(&result, now);
    }

    /// Drops the rows resolved before a moment.
    fn drop_before(&mut self, cutoff: i64)
        requires
            old(self).well_formed(),
        ensures
            final(self)@ == not_before(old(self)@, cutoff),
            final(self).ttl() == old(self).ttl(),
            final(self).well_formed(),
    {
        let ghost all = self@;
        let mut i: usize = 0;
        let ghost mut done: int = 0;
        proof {
            reveal(Seq::filter);
            assert(not_before(all.take(0), cutoff) =~= Seq::empty());
            assert(all.skip(0) =~= all);
            assert(self@ =~= not_before(all.take(0), cutoff) + all.skip(0));
        }
        while i < self.rows.len()
            invariant
                0 <= done <= all.len(),
                i == not_before(all.take(done), cutoff).len(),
                self@ == not_before(all.take(done), cutoff) + all.skip(done),
                self.ttl() == old(self).ttl(),
            decreases all.len() - done,
        {
            let ghost kept = not_before(all.take(done), cutoff);
            let ghost rows_before = self.rows@;
            proof {
                reveal(Seq::filter);
                assert(self@.len() == self.rows@.len());
                assert(self@[i as int] == self.rows@[i as int]@);
                assert(self@[i as int] == all[done]);
                assert(all.take(done + 1).drop_last() =~= all.take(done));
                assert(all.take(done + 1).last() == all[done]);
            }
            if self.rows[i].resolved_at < cutoff {
                self.rows.remove(i);
                proof {
                    assert(self@ =~= kept + all.skip(done + 1)) by {
                        assert forall|k: int| 0 <= k < self@.len() implies self@[k] == (kept
                            + all.skip(done + 1))[k] by {
                            if k < i {
                                assert(row_models(rows_before)[k] == (kept + all.skip(done))[k]);
                            } else {
                                assert(row_models(rows_before)[k + 1] == (kept + all.skip(done))[k
                                    + 1]);
                            }
                        }
                    }
                }
            } else {
                proof {
                    assert(kept.push(all[done]) + all.skip(done + 1) =~= kept + all.skip(done));
                }
                i = i + 1;
            }
            proof {
                done = done + 1;
            }
        }
        proof {
            assert(self@.len() == self.rows@.len());
            assert(all.skip(done).len() == 0);
            assert(all.take(all.len() as int) =~= all);
            assert(self@ =~= not_before(all, cutoff));
            lemma_not_before(all, cutoff);
        }
    }

    /// Look up a URL at a given time.
    pub fn get_at(&self, url: &str, now: i64) -> (r: Option<ResolveResult>)
        ensures
            match r {
                Some(result) => served(self@, url@, self.cutoff(now)) == Some(result@),
                None => served(self@, url@, self.cutoff(now)) is None,
            },
    {
        let cutoff: i64 = now.wrapping_sub(to_signed64(self.ttl_secs));
        let mut i: usize = 0;
        while i < self.rows.len()
            invariant
                i <= self.rows@.len() == self@.len(),
                cutoff == self.cutoff(now),
                row_index(self@, url@, 0) == row_index(self@, url@, i as int),
            decreases self.rows.len() - i,
        {
            assert(self@[i as int] == self.rows@[i as int]@);
            if same_text(self.rows[i].source_url.as_str(), url) {
                if self.rows[i].resolved_at > cutoff {
                    return Some(row_to_resolve_result(&self.rows[i]));
                }
                return None;
            }
            i = i + 1;
        }
        None
    }

    /// Look up a URL at the current time.
    pub fn get(&self, url: &str) -> (r: Option<ResolveResult>)
        ensures
            exists|now: i64|
                match r {
                    Some(result) => served(self@, url@, #[trigger] self.cutoff(now)) == Some(
                        result@,
                    ),
                    None => served(self@, url@, #[trigger] self.cutoff(now)) is None,
                },
    {
        let now: i64 = now_epoch_secs();
        self.get_at(url, now)
    }

    /// Remove all entries that are expired at a given time.
    pub fn evict_expired_at(&mut self, now: i64)
        requires
            old(self).well_formed(),
        ensures
            final(self)@ == unexpired(old(self)@, old(self).cutoff(now)),
            forall|i: int|
                0 <= i < final(self)@.len() ==> served(
                    final(self)@,
                    (#[trigger] final(self)@[i]).source_url,
                    old(self).cutoff(now),
                ) == Some(result_of(final(self)@[i])),
            forall|url: Seq<char>, later: i64|
                old(self).cutoff(now) <= later ==> #[trigger] served(final(self)@, url, later)
                    == served(old(self)@, url, later),
            final(self).ttl() == old(self).ttl(),
            final(self).well_formed(),
    {
        let cutoff: i64 = now.wrapping_sub(to_signed64(self.ttl_secs));
        proof {
            let kept = unexpired(self@, cutoff);
            lemma_unexpired(self@, cutoff);
            assert forall|i: int| 0 <= i < kept.len() implies served(
                kept,
                (#[trigger] kept[i]).source_url,
                cutoff,
            ) == Some(result_of(kept[i])) by {
                lemma_left_is_served(self@, cutoff, i);
            }
            assert forall|url: Seq<char>, later: i64| cutoff <= later implies #[trigger] served(
                kept,
                url,
                later,
            ) == served(self@, url, later) by {
                lemma_eviction_keeps_served(self@, url, cutoff, later);
            }
        }
        if cutoff < i64::MAX {
            self.drop_before(cutoff + 1);
        } else {
            self.rows = Vec::new();
            assert(self@ =~= Seq::empty());
        }
    }

    /// Remove all expired entries.
    pub fn evict_expired(&mut self)
        requires
            old(self).well_formed(),
        ensures
            exists|now: i64|
                final(self)@ == unexpired(old(self)@, #[trigger] old(self).cutoff(now)),
            final(self).ttl() == old(self).ttl(),
            final(self).well_formed(),
    {
        let now: i64 = now_epoch_secs();
        self.evict_expired_at(now);
    }

    /// The number of entries, expired ones counted.
    pub fn len(&self) -> (r: usize)
        ensures
            r == self@.len(),
    {
        self.rows.len()
    }

    /// Whether there are no entries.
    pub fn is_empty(&self) -> (r: bool)
        ensures
            r == (self@.len() == 0),
    {
        self.rows.len() == 0
    }

    /// Remove all entries.
    pub fn clear(&mut self)
        ensures
            final(self)@ == Seq::<RowModel>::empty(),
            final(self).ttl() == old(self).ttl(),
            final(self).well_formed(),
    {
        self.rows = Vec::new();
        assert(self@ =~= Seq::<RowModel>::empty());
    }

    /// Delete the entry of a URL.
    pub fn delete(&mut self, url: &str)
        requires
            old(self).well_formed(),
        ensures
            final(self)@ == without_url(old(self)@, url@),
            final(self).ttl() == old(self).ttl(),
            final(self).well_formed(),
    {
        let ghost all = self@;
        let mut i: usize = 0;
        let ghost mut done: int = 0;
        proof {
            reveal(Seq::filter);
            assert(without_url(all.take(0), url@) =~= Seq::empty());
            assert(all.skip(0) =~= all);
            assert(self@ =~= without_url(all.take(0), url@) + all.skip(0));
        }
        while i < self.rows.len()
            invariant
                0 <= done <= all.len(),
                i == without_url(all.take(done), url@).len(),
                self@ == without_url(all.take(done), url@) + all.skip(done),
                self.ttl() == old(self).ttl(),
            decreases all.len() - done,
        {
            let ghost kept = without_url(all.take(done), url@);
            let ghost rows_before = self.rows@;
            proof {
                reveal(Seq::filter);
                assert(self@.len() == self.rows@.len());
                assert(self@[i as int] == self.rows@[i as int]@);
                assert(self@[i as int] == all[done]);
                assert(all.take(done + 1).drop_last() =~= all.take(done));
                assert(all.take(done + 1).last() == all[done]);
            }
            if same_text(self.rows[i].source_url.as_str(), url) {
                self.rows.remove(i);
                proof {
                    assert(self@ =~= kept + all.skip(done + 1)) by {
                        assert forall|k: int| 0 <= k < self@.len() implies self@[k] == (kept
                            + all.skip(done + 1))[k] by {
                            if k < i {
                                assert(row_models(rows_before)[k] == (kept + all.skip(done))[k]);
                            } else {
                                assert(row_models(rows_before)[k + 1] == (kept + all.skip(done))[k
                                    + 1]);
                            }
                        }
                    }
                }
            } else {
                proof {
                    assert(kept.push(all[done]) + all.skip(done + 1) =~= kept + all.skip(done));
                }
                i = i + 1;
            }
            proof {
                done = done + 1;
            }
        }
        proof {
            assert(self@.len() == self.rows@.len());
            assert(all.skip(done).len() == 0);
            assert(all.take(all.len() as int) =~= all);
            assert(self@ =~= without_url(all, url@));
            lemma_without_url(all, url@);
        }
    }

    /// Look up a URL at a given time; where nothing is served, compute a result
    /// and insert it.
    pub fn get_or_insert_with_at<F: FnOnce() -> ResolveResult>(
        &mut self,
        url: &str,
        f: F,
        now: i64,
    ) -> (r: Option<ResolveResult>)
        requires
            old(self).well_formed(),
            f.requires(()),
        ensures
            answered(*old(self), final(self)@, url@, f, r, now),
            final(self).ttl() == old(self).ttl(),
            final(self).well_formed(),
    {
        match self.get_at(url, now) {
            Some(hit) => Some(hit),
            None => {
                let computed = f();
                self.insert_at(&computed, now);
                Some(computed)
            },
        }
    }

    /// Look up a URL at the current time; where nothing is served, compute a
    /// result and insert it.
    pub fn get_or_insert_with<F: FnOnce() -> ResolveResult>(&mut self, url: &str, f: F) -> (r:
        Option<ResolveResult>)
        requires
            old(self).well_formed(),
            f.requires(()),
        ensures
            exists|now: i64| #[trigger] answered(*old(self), final(self)@, url@, f, r, now),
            final(self).ttl() == old(self).ttl(),
            final(self).well_formed(),
    {
        let now: i64 = now_epoch_secs();
        self.get_or_insert_with_at(url, f, now)
    }
}

/// Whether a request was answered from the table without a change, or else by
/// computing a result and inserting it.
pub open spec fn answered<F: FnOnce() -> ResolveResult>(
    before: ResolveCache,
    after: Seq<RowModel>,
    url: Seq<char>,
    f: F,
    r: Option<ResolveResult>,
    now: i64,
) -> bool {
    &&& r is Some
    &&& match served(before@, url, before.cutoff(now)) {
        Some(hit) => r->0@ == hit && after == before@,
        None => f.ensures((), r->0) && after == inserted(before@, r->0@, now),
    }
}

/// The rows left of the first `n` when each replaces those of its URL before
/// it.
pub open spec fn last_rows(rows: Seq<RowModel>, n: int) -> Seq<RowModel>
    decreases n,
{
    if n <= 0 {
        Seq::empty()
    } else {
        without_url(last_rows(rows, n - 1), rows[n - 1].source_url).push(rows[n - 1])
    }
}

// ---------------------------------------------------------------------------
// Laws
// ---------------------------------------------------------------------------

/// Rows of other URLs are what is left, and all of it was there before.
pub proof fn lemma_without_url(rows: Seq<RowModel>, url: Seq<char>)
    ensures
        forall|i: int|
            0 <= i < without_url(rows, url).len() ==> (#[trigger] without_url(
                rows,
                url,
            )[i]).source_url != url && rows.contains(without_url(rows, url)[i]),
        urls_unique(rows) ==> urls_unique(without_url(rows, url)),
    decreases rows.len(),
{
    reveal(Seq::filter);
    if rows.len() > 0 {
        let front = rows.drop_last();
        lemma_without_url(front, url);
        let kept = without_url(front, url);
        let all = without_url(rows, url);
        assert forall|i: int| 0 <= i < all.len() implies (#[trigger] all[i]).source_url != url
            && rows.contains(all[i]) by {
            if i < kept.len() {
                assert(all[i] == kept[i]);
                assert(front.contains(kept[i]));
                let j = choose|j: int| 0 <= j < front.len() && front[j] == kept[i];
                assert(rows[j] == all[i]);
            } else {
                assert(all[i] == rows.last());
                assert(rows[rows.len() - 1] == all[i]);
            }
        }
        if urls_unique(rows) {
            assert(urls_unique(front));
            assert forall|i: int, j: int| 0 <= i < j < all.len() implies (
            #[trigger] all[i]).source_url != (#[trigger] all[j]).source_url by {
                if j < kept.len() {
                    assert(kept[i].source_url != kept[j].source_url);
                } else {
                    assert(front.contains(kept[i]));
                    let k = choose|k: int| 0 <= k < front.len() && front[k] == kept[i];
                    assert(rows[k].source_url != rows[rows.len() - 1].source_url);
                }
            }
        }
    }
}

/// Rows from the cutoff on are what is left, and all of it was there before.
pub proof fn lemma_not_before(rows: Seq<RowModel>, cutoff: i64)
    ensures
        forall|i: int|
            0 <= i < not_before(rows, cutoff).len() ==> (#[trigger] not_before(
                rows,
                cutoff,
            )[i]).resolved_at >= cutoff && rows.contains(not_before(rows, cutoff)[i]),
        urls_unique(rows) ==> urls_unique(not_before(rows, cutoff)),
    decreases rows.len(),
{
    reveal(Seq::filter);
    if rows.len() > 0 {
        let front = rows.drop_last();
        lemma_not_before(front, cutoff);
        let kept = not_before(front, cutoff);
        let all = not_before(rows, cutoff);
        assert forall|i: int| 0 <= i < all.len() implies (#[trigger] all[i]).resolved_at >= cutoff
            && rows.contains(all[i]) by {
            if i < kept.len() {
                assert(all[i] == kept[i]);
                assert(front.contains(kept[i]));
                let j = choose|j: int| 0 <= j < front.len() && front[j] == kept[i];
                assert(rows[j] == all[i]);
            } else {
                assert(all[i] == rows.last());
                assert(rows[rows.len() - 1] == all[i]);
            }
        }
        if urls_unique(rows) {
            assert(urls_unique(front));
            assert forall|i: int, j: int| 0 <= i < j < all.len() implies (
            #[trigger] all[i]).source_url != (#[trigger] all[j]).source_url by {
                if j < kept.len() {
                    assert(kept[i].source_url != kept[j].source_url);
                } else {
                    assert(front.contains(kept[i]));
                    let k = choose|k: int| 0 <= k < front.len() && front[k] == kept[i];
                    assert(rows[k].source_url != rows[rows.len() - 1].source_url);
                }
            }
        }
    }
}

proof fn lemma_unexpired(rows: Seq<RowModel>, cutoff: i64)
    ensures
        unexpired(rows, cutoff) == if cutoff < i64::MAX {
            not_before(rows, (cutoff + 1) as i64)
        } else {
            Seq::empty()
        },
        urls_unique(rows) ==> urls_unique(unexpired(rows, cutoff)),
    decreases rows.len(),
{
    reveal(Seq::filter);
    if rows.len() > 0 {
        lemma_unexpired(rows.drop_last(), cutoff);
    }
    if cutoff < i64::MAX {
        lemma_not_before(rows, (cutoff + 1) as i64);
    }
}

/// What `row_index` finds: a row of the URL, or none is there.
pub proof fn lemma_row_index(rows: Seq<RowModel>, url: Seq<char>, i: int)
    requires
        0 <= i,
    ensures
        match row_index(rows, url, i) {
            Some(k) => i <= k < rows.len() && rows[k].source_url == url,
            None => forall|j: int| i <= j < rows.len() ==> (#[trigger] rows[j]).source_url != url,
        },
    decreases rows.len() - i,
{
    if i < rows.len() && rows[i].source_url != url {
        lemma_row_index(rows, url, i + 1);
    }
}

/// What was inserted is served until its TTL has passed: an insertion at `now`
/// is served at `later` exactly where the cutoff of `later` lies before `now`.
pub proof fn lemma_inserted_is_served(
    rows: Seq<RowModel>,
    result: ResolveModel,
    now: i64,
    cutoff: i64,
)
    requires
        urls_unique(rows),
        now - CLEANUP_AGE_SECS >= i64::MIN,
    ensures
        served(inserted(rows, result, now), result.source_url, cutoff) == if now > cutoff {
            Some(result_of(row_of(result, now)))
        } else {
            None
        },
{
    let url = result.source_url;
    let row = row_of(result, now);
    let full = without_url(rows, url).push(row);
    let bound = moment_before(now, CLEANUP_AGE_SECS);
    let after = inserted(rows, result, now);
    lemma_without_url(rows, url);
    reveal(Seq::filter);
    assert(full.drop_last() =~= without_url(rows, url));
    assert(after == not_before(without_url(rows, url), bound).push(row));
    lemma_not_before(without_url(rows, url), bound);
    lemma_row_index(after, url, 0);
    let n = after.len() - 1;
    assert(after[n] == row);
    let k = row_index(after, url, 0);
    assert(k is Some);
    if k->0 < n {
        let kept = not_before(without_url(rows, url), bound);
        assert(after[k->0] == kept[k->0]);
        assert(without_url(rows, url).contains(kept[k->0]));
        let j = choose|j: int|
            0 <= j < without_url(rows, url).len() && without_url(rows, url)[j] == kept[k->0];
        assert(without_url(rows, url)[j].source_url != url);
    }
}

/// What was inserted is served exactly while it is younger than the TTL, where
/// that is below 2^63 seconds.
pub proof fn lemma_served_while_young(
    cache: ResolveCache,
    rows: Seq<RowModel>,
    result: ResolveModel,
    now: i64,
    later: i64,
)
    requires
        urls_unique(rows),
        cache.ttl() <= i64::MAX,
        now - CLEANUP_AGE_SECS >= i64::MIN,
        later - cache.ttl() >= i64::MIN,
    ensures
        served(inserted(rows, result, now), result.source_url, cache.cutoff(later)) == if later
            - now < cache.ttl() {
            Some(result_of(row_of(result, now)))
        } else {
            None
        },
{
    lemma_inserted_is_served(rows, result, now, cache.cutoff(later));
}

/// After an insertion no row is older than an hour.
pub proof fn lemma_insertion_cleans_up(
    rows: Seq<RowModel>,
    result: ResolveModel,
    now: i64,
    i: int,
)
    requires
        now - CLEANUP_AGE_SECS >= i64::MIN,
        0 <= i < inserted(rows, result, now).len(),
    ensures
        inserted(rows, result, now)[i].resolved_at >= now - CLEANUP_AGE_SECS,
{
    lemma_not_before(
        without_url(rows, result.source_url).push(row_of(result, now)),
        moment_before(now, CLEANUP_AGE_SECS),
    );
}

/// A deleted URL is not served.
pub proof fn lemma_deleted_is_not_served(rows: Seq<RowModel>, url: Seq<char>, cutoff: i64)
    ensures
        served(without_url(rows, url), url, cutoff) is None,
{
    lemma_without_url(rows, url);
    lemma_row_index(without_url(rows, url), url, 0);
}

/// Eviction removes exactly the expired entries: every entry that is left was
/// resolved after the cutoff, and every entry resolved after it is left.
pub proof fn lemma_eviction_exact(rows: Seq<RowModel>, cutoff: i64)
    ensures
        forall|i: int|
            0 <= i < unexpired(rows, cutoff).len() ==> (#[trigger] unexpired(
                rows,
                cutoff,
            )[i]).resolved_at > cutoff && rows.contains(unexpired(rows, cutoff)[i]),
        forall|k: int|
            0 <= k < rows.len() && rows[k].resolved_at > cutoff ==> unexpired(
                rows,
                cutoff,
            ).contains(#[trigger] rows[k]),
{
    lemma_unexpired(rows, cutoff);
    if cutoff < i64::MAX {
        lemma_not_before(rows, (cutoff + 1) as i64);
    }
    rows.filter_lemma(|r: RowModel| r.resolved_at > cutoff);
}

/// Eviction changes nothing that is served: a lookup, then or later, finds what
/// it would have found without it.
pub proof fn lemma_eviction_keeps_served(
    rows: Seq<RowModel>,
    url: Seq<char>,
    cutoff: i64,
    later: i64,
)
    requires
        urls_unique(rows),
        cutoff <= later,
    ensures
        served(unexpired(rows, cutoff), url, later) == served(rows, url, later),
{
    let kept = unexpired(rows, cutoff);
    lemma_eviction_exact(rows, cutoff);
    lemma_unexpired(rows, cutoff);
    lemma_row_index(rows, url, 0);
    lemma_row_index(kept, url, 0);
    if let Some(m) = row_index(kept, url, 0) {
        assert(rows.contains(kept[m]));
        let j = choose|j: int| 0 <= j < rows.len() && rows[j] == kept[m];
        assert(rows[j].source_url == url);
        let k = row_index(rows, url, 0)->0;
        assert(rows[k].source_url == url);
        assert(k == j);
    } else if let Some(k) = row_index(rows, url, 0) {
        if rows[k].resolved_at > cutoff {
            assert(kept.contains(rows[k]));
            let j = choose|j: int| 0 <= j < kept.len() && kept[j] == rows[k];
            assert(kept[j].source_url == url);
        }
    }
}

/// Every entry that eviction leaves is served.
pub proof fn lemma_left_is_served(rows: Seq<RowModel>, cutoff: i64, i: int)
    requires
        urls_unique(rows),
        0 <= i < unexpired(rows, cutoff).len(),
    ensures
        served(unexpired(rows, cutoff), unexpired(rows, cutoff)[i].source_url, cutoff) == Some(
            result_of(unexpired(rows, cutoff)[i]),
        ),
{
    let kept = unexpired(rows, cutoff);
    let url = kept[i].source_url;
    lemma_eviction_exact(rows, cutoff);
    lemma_unexpired(rows, cutoff);
    lemma_row_index(kept, url, 0);
    let k = row_index(kept, url, 0)->0;
    assert(kept[k].source_url == kept[i].source_url);
    assert(k == i);
}

} // verus!
