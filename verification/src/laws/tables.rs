//! Laws of the cache: what a row keeps of a result, and which rows are there.

use crate::cache::{
    answered, inserted, last_rows, lemma_not_before, lemma_row_index, lemma_without_url,
    moment_before, result_of, row_index, row_of, served, signed32, signed64, unexpired, unsigned32,
    unsigned64, urls_unique, without_url, ResolveCache, RowModel, CLEANUP_AGE_SECS,
    DEFAULT_TTL_SECS,
};
use crate::classifier::{category_name, category_of_name};
use crate::json::{json_strings, json_strings_text};
use crate::resolver::{ResolveModel, ResolveResult};
use vstd::prelude::*;

verus! {

/// Columns hold what their names say of a result.
pub proof fn law_row_columns(result: ResolveModel, now: i64)
    ensures
        ({
            let row = row_of(result, now);
            &&& row.source_url == result.source_url
            &&& row.direct_url == result.direct_url
            &&& row.audio_url == result.audio_url
            &&& row.category == category_name(result.category)
            &&& row.mime_type == result.mime_type
            &&& row.title == result.title
            &&& row.thumbnail == result.thumbnail
            &&& row.vcodec == result.vcodec
            &&& row.acodec == result.acodec
            &&& row.resolved_at == now
            &&& (row.used_tor != 0) == result.used_tor
            &&& result.content_length matches Some(n) ==> (row.content_length matches Some(stored)
                && unsigned64(stored) == n)
            &&& result.content_length is None ==> row.content_length is None
            &&& result.duration matches Some(n) ==> (row.duration matches Some(stored)
                && unsigned64(stored) == n)
            &&& result.duration is None ==> row.duration is None
            &&& result.width matches Some(n) ==> (row.width matches Some(stored) && unsigned32(
                stored,
            ) == n)
            &&& result.width is None ==> row.width is None
            &&& result.height matches Some(n) ==> (row.height matches Some(stored) && unsigned32(
                stored,
            ) == n)
            &&& result.height is None ==> row.height is None
            &&& json_strings_text(result.subtitle_tracks) matches Some(text) ==> row.subtitle_tracks
                == text
        }),
{
}

/// A row is read by the same columns.
pub proof fn law_row_results(row: RowModel)
    ensures
        ({
            let result = result_of(row);
            &&& result.source_url == row.source_url
            &&& result.direct_url == row.direct_url
            &&& result.audio_url == row.audio_url
            &&& result.category == category_of_name(row.category)
            &&& result.mime_type == row.mime_type
            &&& result.title == row.title
            &&& result.thumbnail == row.thumbnail
            &&& result.vcodec == row.vcodec
            &&& result.acodec == row.acodec
            &&& result.used_tor == (row.used_tor != 0)
            &&& row.content_length matches Some(n) ==> (n >= 0 ==> result.content_length == Some(
                n as u64,
            ))
            &&& row.duration matches Some(n) ==> (n >= 0 ==> result.duration == Some(n as u64))
            &&& row.width matches Some(n) ==> (n >= 0 ==> result.width == Some(n as u32))
            &&& row.height matches Some(n) ==> (n >= 0 ==> result.height == Some(n as u32))
            &&& json_strings(row.subtitle_tracks) matches Some(items) ==> result.subtitle_tracks
                == items
            &&& json_strings(row.subtitle_tracks) is None ==> result.subtitle_tracks.len() == 0
        }),
{
}

/// Numbers survive their signed columns.
pub proof fn law_columns_keep_numbers(n: u64, k: u32)
    ensures
        unsigned64(signed64(n)) == n,
        unsigned32(signed32(k)) == k,
        n <= i64::MAX ==> signed64(n) == n,
        k <= i32::MAX ==> signed32(k) == k,
{
}

/// What is served for an address is its row, and only while it is newer than
/// the cutoff.
pub proof fn law_served(rows: Seq<RowModel>, k: int, cutoff: i64)
    requires
        urls_unique(rows),
        0 <= k < rows.len(),
    ensures
        rows[k].resolved_at > cutoff ==> served(rows, rows[k].source_url, cutoff) == Some(
            result_of(rows[k]),
        ),
        rows[k].resolved_at <= cutoff ==> served(rows, rows[k].source_url, cutoff) is None,
{
    lemma_row_index(rows, rows[k].source_url, 0);
    let j = row_index(rows, rows[k].source_url, 0)->0;
    assert(rows[j].source_url == rows[k].source_url);
    assert(j == k);
}

/// Nothing is served for an address without a row.
pub proof fn law_not_served(rows: Seq<RowModel>, url: Seq<char>, cutoff: i64)
    requires
        forall|i: int| 0 <= i < rows.len() ==> (#[trigger] rows[i]).source_url != url,
    ensures
        served(rows, url, cutoff) is None,
{
    lemma_row_index(rows, url, 0);
}

/// An insertion puts the result in place of what its address had, and keeps
/// every other row of the last hour; older ones go.
pub proof fn law_insertion(rows: Seq<RowModel>, result: ResolveModel, now: i64, i: int)
    requires
        now - 3600 >= i64::MIN,
        0 <= i < rows.len(),
    ensures
        inserted(rows, result, now).contains(row_of(result, now)),
        rows[i].source_url != result.source_url && rows[i].resolved_at >= now - 3600 ==> inserted(
            rows,
            result,
            now,
        ).contains(rows[i]),
        rows[i].resolved_at < now - 3600 ==> !inserted(rows, result, now).contains(rows[i]),
        forall|j: int|
            0 <= j < inserted(rows, result, now).len() && (#[trigger] inserted(
                rows,
                result,
                now,
            )[j]).source_url == result.source_url ==> inserted(rows, result, now)[j] == row_of(
                result,
                now,
            ),
{
    let url = result.source_url;
    let row = row_of(result, now);
    let bound = moment_before(now, CLEANUP_AGE_SECS);
    let others = without_url(rows, url);
    let full = others.push(row);
    let after = inserted(rows, result, now);
    rows.filter_lemma(|r: RowModel| r.source_url != url);
    full.filter_lemma(|r: RowModel| r.resolved_at >= bound);
    lemma_without_url(rows, url);
    lemma_not_before(full, bound);
    assert(full[others.len() as int] == row);
    if rows[i].source_url != url && rows[i].resolved_at >= now - 3600 {
        assert(others.contains(rows[i]));
        let j = choose|j: int| 0 <= j < others.len() && others[j] == rows[i];
        assert(full[j] == rows[i]);
    }
    if after.contains(rows[i]) {
        let j = choose|j: int| 0 <= j < after.len() && after[j] == rows[i];
        assert(after[j].resolved_at >= bound);
    }
    assert forall|j: int| 0 <= j < after.len() && (#[trigger] after[j]).source_url == url implies
        after[j] == row by {
        assert(full.contains(after[j]));
        let k = choose|k: int| 0 <= k < full.len() && full[k] == after[j];
        if k < others.len() {
            assert(others[k].source_url != url);
        }
    }
}

/// Deleting an address removes its row, and no other.
pub proof fn law_deletion(rows: Seq<RowModel>, url: Seq<char>, i: int)
    requires
        0 <= i < rows.len(),
    ensures
        without_url(rows, url).contains(rows[i]) <==> rows[i].source_url != url,
{
    rows.filter_lemma(|r: RowModel| r.source_url != url);
    lemma_without_url(rows, url);
    if without_url(rows, url).contains(rows[i]) {
        let j = choose|j: int|
            0 <= j < without_url(rows, url).len() && without_url(rows, url)[j] == rows[i];
        assert(without_url(rows, url)[j].source_url != url);
    }
}

/// Eviction removes exactly the rows that the TTL has caught up with.
pub proof fn law_eviction(cache: ResolveCache, rows: Seq<RowModel>, now: i64, i: int)
    requires
        0 <= i < rows.len(),
        cache.ttl() <= i64::MAX,
        now - cache.ttl() >= i64::MIN,
    ensures
        unexpired(rows, cache.cutoff(now)).contains(rows[i]) <==> now - rows[i].resolved_at
            < cache.ttl(),
{
    crate::cache::lemma_eviction_exact(rows, cache.cutoff(now));
    let kept = unexpired(rows, cache.cutoff(now));
    if kept.contains(rows[i]) {
        let j = choose|j: int| 0 <= j < kept.len() && kept[j] == rows[i];
        assert(kept[j].resolved_at > cache.cutoff(now));
    }
}

/// Rows are kept for ten minutes unless told otherwise, and cleaned up after an
/// hour.
pub proof fn law_ages()
    ensures
        DEFAULT_TTL_SECS == 600,
        CLEANUP_AGE_SECS == 3600,
{
}

/// Of rows that are read in order, the last one of an address counts.
pub proof fn law_last_row_counts(rows: Seq<RowModel>, n: int, i: int)
    requires
        0 <= i < n <= rows.len(),
        forall|j: int| i < j < n ==> (#[trigger] rows[j]).source_url != rows[i].source_url,
    ensures
        last_rows(rows, n).contains(rows[i]),
    decreases n,
{
    let before = last_rows(rows, n - 1);
    let url = rows[n - 1].source_url;
    let after = last_rows(rows, n);
    if i == n - 1 {
        assert(after[after.len() - 1] == rows[i]);
    } else {
        law_last_row_counts(rows, n - 1, i);
        before.filter_lemma(|r: RowModel| r.source_url != url);
        let k = choose|k: int| 0 <= k < before.len() && before[k] == rows[i];
        assert(rows[n - 1].source_url != rows[i].source_url);
        assert(without_url(before, url).contains(before[k]));
        let m = choose|m: int|
            0 <= m < without_url(before, url).len() && without_url(before, url)[m] == rows[i];
        assert(after[m] == rows[i]);
    }
}

/// Every row that counts was read, and none is older than another one of its
/// address.
pub proof fn law_rows_were_read(rows: Seq<RowModel>, n: int, k: int)
    requires
        0 <= n <= rows.len(),
        0 <= k < last_rows(rows, n).len(),
    ensures
        exists|i: int|
            0 <= i < n && #[trigger] rows[i] == last_rows(rows, n)[k] && forall|j: int|
                i < j < n ==> (#[trigger] rows[j]).source_url != rows[i].source_url,
    decreases n,
{
    let before = last_rows(rows, n - 1);
    let url = rows[n - 1].source_url;
    let after = last_rows(rows, n);
    lemma_without_url(before, url);
    if k == after.len() - 1 {
        assert(rows[n - 1] == after[k]);
    } else {
        let row = without_url(before, url)[k];
        assert(after[k] == row);
        assert(before.contains(row));
        let m = choose|m: int| 0 <= m < before.len() && before[m] == row;
        law_rows_were_read(rows, n - 1, m);
        let i = choose|i: int|
            0 <= i < n - 1 && #[trigger] rows[i] == before[m] && forall|j: int|
                i < j < n - 1 ==> (#[trigger] rows[j]).source_url != rows[i].source_url;
        assert(rows[i] == after[k]);
    }
}

/// Languages that cannot be written are stored as none.
pub proof fn law_unwritten_tracks(result: ResolveModel, now: i64)
    requires
        json_strings_text(result.subtitle_tracks) is None,
    ensures
        row_of(result, now).subtitle_tracks == "[]"@,
{
}

/// A request is answered from the table where it can be, without a change;
/// else by computing, and what was computed is stored.
pub proof fn law_answered_or_computed<F: FnOnce() -> ResolveResult>(
    before: ResolveCache,
    after: Seq<RowModel>,
    url: Seq<char>,
    f: F,
    r: Option<ResolveResult>,
    now: i64,
)
    requires
        answered(before, after, url, f, r, now),
    ensures
        r is Some,
        served(before@, url, before.cutoff(now)) matches Some(hit) ==> r->0@ == hit && after
            == before@,
        served(before@, url, before.cutoff(now)) is None ==> f.ensures((), r->0) && after
            == inserted(before@, r->0@, now),
{
}

} // verus!
