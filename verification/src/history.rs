//! Download history and bookmarks.
//!
//! The lists live here; the application loads them from and saves them to
//! `history.json` and `bookmarks.json` after each change.

use crate::collaboration::ids::{new_uuid, now, Timestamp};
use crate::text::{chars_equal, chars_of, contains, contains_spec, lowercase_text, to_lowercase};
use vstd::prelude::*;

verus! {

/// A finished download.
#[derive(Clone, Debug)]
pub struct HistoryEntry {
    pub id: u128,
    pub url: String,
    pub title: Option<String>,
    pub file_path: Option<String>,
    pub file_size: Option<u64>,
    pub downloaded_at: Timestamp,
    /// The bits of the duration in seconds as an `f64`.
    pub duration_secs: Option<u64>,
}

/// A bookmarked URL.
#[derive(Clone, Debug)]
pub struct BookmarkEntry {
    pub id: u128,
    pub url: String,
    pub title: Option<String>,
    pub added_at: Timestamp,
    pub note: Option<String>,
}

/// Why a bookmark was not added.
#[derive(Clone, Copy, Debug, PartialEq, Eq, Structural)]
pub enum HistoryError {
    /// A bookmark with this URL exists already.
    DuplicateBookmark,
}

impl HistoryError {
    /// The message shown for the error.
    pub fn message(&self) -> (r: String)
        ensures
            r@ == "URL 已存在"@,
    {
        crate::text::string_of(chars_of("URL 已存在").as_slice())
    }
}

/// The download history (most recent first) and the bookmarks (in the order
/// they were added).
pub struct History {
    entries: Vec<HistoryEntry>,
    bookmarks: Vec<BookmarkEntry>,
}

/// Whether `e` matches the search `query`: its URL or its title contains
/// the query, all compared in lowercase.
pub open spec fn matches_query(e: HistoryEntry, query: Seq<char>) -> bool {
    ||| contains_spec(lowercase_text(e.url@), lowercase_text(query))
    ||| (e.title matches Some(t) && contains_spec(lowercase_text(t@), lowercase_text(query)))
}

/// Whether some bookmark in `b` has the URL `url`.
pub open spec fn has_bookmark_url(b: Seq<BookmarkEntry>, url: Seq<char>) -> bool {
    exists|i: int| 0 <= i < b.len() && (#[trigger] b[i]).url@ == url
}

/// No two bookmarks share a URL.
pub open spec fn bookmark_urls_distinct(b: Seq<BookmarkEntry>) -> bool {
    forall|i: int, j: int| 0 <= i < j < b.len() ==> (#[trigger] b[i]).url@ != (#[trigger] b[j]).url@
}

/// Whether some entry in `s` has the identifier `id`.
pub open spec fn has_entry_id(s: Seq<HistoryEntry>, id: u128) -> bool {
    exists|i: int| 0 <= i < s.len() && (#[trigger] s[i]).id == id
}

/// Whether some bookmark in `s` has the identifier `id`.
pub open spec fn has_bookmark_id(s: Seq<BookmarkEntry>, id: u128) -> bool {
    exists|i: int| 0 <= i < s.len() && (#[trigger] s[i]).id == id
}

/// The smaller of two lengths.
pub open spec fn min_len(a: int, b: int) -> int {
    if a <= b {
        a
    } else {
        b
    }
}

/// Filtering keeps distinct URLs distinct.
proof fn lemma_filter_keeps_distinct(b: Seq<BookmarkEntry>, pred: spec_fn(BookmarkEntry) -> bool)
    requires
        bookmark_urls_distinct(b),
    ensures
        bookmark_urls_distinct(b.filter(pred)),
        forall|x: BookmarkEntry| b.filter(pred).contains(x) ==> b.contains(x),
    decreases b.len(),
{
    broadcast use vstd::seq_lib::group_filter_ensures;

    if b.len() > 0 {
        let d = b.drop_last();
        assert(bookmark_urls_distinct(d));
        lemma_filter_keeps_distinct(d, pred);
        let f = d.filter(pred);
        reveal(Seq::filter);
        assert(b.filter(pred) == (if pred(b.last()) {
            f.push(b.last())
        } else {
            f
        }));
        if pred(b.last()) {
            assert forall|i: int, j: int| 0 <= i < j < f.push(b.last()).len() implies (#[trigger] f.push(
                b.last(),
            )[i]).url@ != (#[trigger] f.push(b.last())[j]).url@ by {
                if j == f.len() {
                    assert(f.contains(f[i]));
                    assert(d.contains(f[i]));
                    let k = choose|k: int| 0 <= k < d.len() && d[k] == f[i];
                    assert(b[k] == d[k]);
                    assert(b[b.len() - 1] == b.last());
                }
            }
            assert forall|x: BookmarkEntry| f.push(b.last()).contains(x) implies b.contains(x) by {
                let k = choose|k: int| 0 <= k < f.push(b.last()).len() && f.push(b.last())[k] == x;
                if k < f.len() {
                    assert(f[k] == x);
                    assert(f.contains(x));
                    assert(d.contains(x));
                    let m = choose|m: int| 0 <= m < d.len() && d[m] == x;
                    assert(b[m] == x);
                } else {
                    assert(b[b.len() - 1] == x);
                }
            }
        } else {
            assert forall|x: BookmarkEntry| f.contains(x) implies b.contains(x) by {
                assert(d.contains(x));
                let m = choose|m: int| 0 <= m < d.len() && d[m] == x;
                assert(b[m] == x);
            }
        }
    }
}

impl History {
    /// The history entries, most recent first.
    pub closed spec fn entries(&self) -> Seq<HistoryEntry> {
        self.entries@
    }

    /// The bookmarks, in the order they were added.
    pub closed spec fn bookmarks(&self) -> Seq<BookmarkEntry> {
        self.bookmarks@
    }

    /// An empty history.
    pub fn new() -> (r: History)
        ensures
            r.entries() == Seq::<HistoryEntry>::empty(),
            r.bookmarks() == Seq::<BookmarkEntry>::empty(),
    {
        History { entries: Vec::new(), bookmarks: Vec::new() }
    }

    /// A history holding saved lists.
    pub fn with_saved(entries: Vec<HistoryEntry>, bookmarks: Vec<BookmarkEntry>) -> (r: History)
        ensures
            r.entries() == entries@,
            r.bookmarks() == bookmarks@,
    {
        History { entries, bookmarks }
    }

    /// Records a download at the front of the history, with a fresh
    /// identifier and the current time.
    pub fn add_entry(
        &mut self,
        url: String,
        title: Option<String>,
        file_path: Option<String>,
        file_size: Option<u64>,
        duration_secs: Option<u64>,
    )
        ensures
            final(self).entries().len() == old(self).entries().len() + 1,
            final(self).entries().subrange(1, final(self).entries().len() as int) == old(self).entries(),
            final(self).entries()[0].url == url,
            final(self).entries()[0].title == title,
            final(self).entries()[0].file_path == file_path,
            final(self).entries()[0].file_size == file_size,
            final(self).entries()[0].duration_secs == duration_secs,
            final(self).bookmarks() == old(self).bookmarks(),
    {
        let entry = HistoryEntry {
            id: new_uuid(),
            url,
            title,
            file_path,
            file_size,
            downloaded_at: now(),
            duration_secs,
        };
        self.entries.insert(0, entry);
        assert(self.entries@.subrange(1, self.entries@.len() as int) =~= old(self).entries@);
    }

    /// The `count` most recent entries (all of them where there are fewer).
    pub fn get_recent(&self, count: usize) -> (r: &[HistoryEntry])
        ensures
            r@ == self.entries().subrange(0, min_len(count as int, self.entries().len() as int)),
    {
        let n = if count < self.entries.len() {
            count
        } else {
            self.entries.len()
        };
        vstd::slice::slice_subrange(self.entries.as_slice(), 0, n)
    }

    /// The entries whose URL or title contains `query`, ignoring case, in
    /// history order.
    pub fn search(&self, query: &str) -> (r: Vec<&HistoryEntry>)
        ensures
            r@.map_values(|e: &HistoryEntry| *e) == self.entries().filter(
                |e: HistoryEntry| matches_query(e, query@),
            ),
    {
        let q_lower = to_lowercase(query);
        let q = chars_of(q_lower.as_str());
        let ghost pred = |e: HistoryEntry| matches_query(e, query@);
        let mut r: Vec<&HistoryEntry> = Vec::new();
        let mut i: usize = 0;
        while i < self.entries.len()
            invariant
                i <= self.entries@.len(),
                q@ == lowercase_text(query@),
                pred == (|e: HistoryEntry| matches_query(e, query@)),
                r@.map_values(|e: &HistoryEntry| *e) == self.entries@.subrange(0, i as int).filter(
                    pred,
                ),
            decreases self.entries@.len() - i,
        {
            let e = &self.entries[i];
            let url_lower = to_lowercase(e.url.as_str());
            let hit_url = contains(chars_of(url_lower.as_str()).as_slice(), q.as_slice());
            let hit = if hit_url {
                true
            } else {
                match &e.title {
                    Some(t) => {
                        let t_lower = to_lowercase(t.as_str());
                        contains(chars_of(t_lower.as_str()).as_slice(), q.as_slice())
                    },
                    None => false,
                }
            };
            assert(hit == matches_query(*e, query@));
            assert(pred(*e) == hit);
            let ghost before = r@;
            if hit {
                r.push(e);
            }
            proof {
                let s = self.entries@.subrange(0, i + 1);
                assert(s.drop_last() =~= self.entries@.subrange(0, i as int));
                assert(s.last() == self.entries@[i as int]);
                reveal(Seq::filter);
                assert(s.filter(pred) == (if pred(s.last()) {
                    s.drop_last().filter(pred).push(s.last())
                } else {
                    s.drop_last().filter(pred)
                }));
                if hit {
                    assert(r@.map_values(|e: &HistoryEntry| *e) =~= before.map_values(
                        |e: &HistoryEntry| *e,
                    ).push(*e));
                } else {
                    assert(r@ == before);
                }
            }
            i = i + 1;
        }
        assert(self.entries@.subrange(0, self.entries@.len() as int) =~= self.entries@);
        r
    }

    /// Removes the entries with identifier `id`; tells whether there was one.
    pub fn remove_entry(&mut self, id: u128) -> (removed: bool)
        ensures
            final(self).entries() == old(self).entries().filter(|e: HistoryEntry| e.id != id),
            removed == has_entry_id(old(self).entries(), id),
            !has_entry_id(final(self).entries(), id),
            final(self).bookmarks() == old(self).bookmarks(),
    {
        broadcast use vstd::seq_lib::group_filter_ensures;

        let ghost pred = |e: HistoryEntry| e.id != id;
        let mut rest: Vec<HistoryEntry> = Vec::new();
        std::mem::swap(&mut rest, &mut self.entries);
        let ghost orig = rest@;
        let total: usize = rest.len();
        assert(orig.len() == total);
        let mut kept: Vec<HistoryEntry> = Vec::new();
        let mut found = false;
        let mut i: usize = 0;
        while rest.len() > 0
            invariant
                i <= orig.len(),
                rest@ == orig.subrange(i as int, orig.len() as int),
                kept@ == orig.subrange(0, i as int).filter(pred),
                pred == (|e: HistoryEntry| e.id != id),
                orig.len() <= usize::MAX,
                found == has_entry_id(orig.subrange(0, i as int), id),
            decreases rest.len(),
        {
            let e = rest.remove(0);
            proof {
                let s = orig.subrange(0, i + 1);
                assert(s.drop_last() =~= orig.subrange(0, i as int));
                assert(s.last() == e);
                assert(pred(e) == (e.id != id));
                reveal(Seq::filter);
                assert(s.filter(pred) == (if pred(s.last()) {
                    s.drop_last().filter(pred).push(s.last())
                } else {
                    s.drop_last().filter(pred)
                }));
                if has_entry_id(orig.subrange(0, i as int), id) {
                    let k = choose|k: int| 0 <= k < i && (#[trigger] orig.subrange(0, i as int)[k]).id == id;
                    assert(s[k] == orig.subrange(0, i as int)[k]);
                }
                if has_entry_id(s, id) && e.id != id {
                    let k = choose|k: int| 0 <= k < s.len() && (#[trigger] s[k]).id == id;
                    assert(orig.subrange(0, i as int)[k] == s[k]);
                }
            }
            if e.id == id {
                found = true;
            } else {
                kept.push(e);
            }
            i = i + 1;
            assert(rest@ =~= orig.subrange(i as int, orig.len() as int));
        }
        assert(orig.subrange(0, i as int) =~= orig);
        self.entries = kept;
        proof {
            if has_entry_id(self.entries@, id) {
                let k = choose|k: int| 0 <= k < self.entries@.len() && (#[trigger] self.entries@[k]).id == id;
                assert(orig.filter(pred).contains(self.entries@[k]));
                assert(pred(self.entries@[k]));
            }
        }
        found
    }

    /// Empties the history (bookmarks stay).
    pub fn clear(&mut self)
        ensures
            final(self).entries() == Seq::<HistoryEntry>::empty(),
            final(self).bookmarks() == old(self).bookmarks(),
    {
        self.entries.clear();
    }

    /// Bookmarks `url`, unless a bookmark with this URL exists already.
    pub fn add_bookmark(&mut self, url: String, title: Option<String>, note: Option<String>) -> (r:
        Result<(), HistoryError>)
        ensures
            has_bookmark_url(old(self).bookmarks(), url@) ==> r == Err::<(), HistoryError>(
                HistoryError::DuplicateBookmark,
            ) && final(self).bookmarks() == old(self).bookmarks(),
            !has_bookmark_url(old(self).bookmarks(), url@) ==> r is Ok && final(self).bookmarks().len()
                == old(self).bookmarks().len() + 1 && final(self).bookmarks().drop_last() == old(self).bookmarks() && final(self).bookmarks().last().url == url && final(self).bookmarks().last().title == title && final(self).bookmarks().last().note == note,
            bookmark_urls_distinct(old(self).bookmarks()) ==> bookmark_urls_distinct(
                final(self).bookmarks(),
            ),
            final(self).entries() == old(self).entries(),
    {
        let target = chars_of(url.as_str());
        let mut i: usize = 0;
        while i < self.bookmarks.len()
            invariant
                i <= self.bookmarks@.len(),
                target@ == url@,
                forall|j: int| 0 <= j < i ==> (#[trigger] self.bookmarks@[j]).url@ != url@,
            decreases self.bookmarks@.len() - i,
        {
            let b = chars_of(self.bookmarks[i].url.as_str());
            if chars_equal(b.as_slice(), target.as_slice()) {
                assert(self.bookmarks@[i as int].url@ == url@);
                return Err(HistoryError::DuplicateBookmark);
            }
            i = i + 1;
        }
        let bookmark = BookmarkEntry { id: new_uuid(), url, title, added_at: now(), note };
        self.bookmarks.push(bookmark);
        assert(self.bookmarks@.drop_last() =~= old(self).bookmarks@);
        Ok(())
    }

    /// All bookmarks, in the order they were added.
    pub fn get_bookmarks(&self) -> (r: &[BookmarkEntry])
        ensures
            r@ == self.bookmarks(),
    {
        self.bookmarks.as_slice()
    }

    /// Removes the bookmarks with identifier `id`; tells whether there was
    /// one.
    pub fn remove_bookmark(&mut self, id: u128) -> (removed: bool)
        ensures
            final(self).bookmarks() == old(self).bookmarks().filter(|b: BookmarkEntry| b.id != id),
            removed == has_bookmark_id(old(self).bookmarks(), id),
            !has_bookmark_id(final(self).bookmarks(), id),
            bookmark_urls_distinct(old(self).bookmarks()) ==> bookmark_urls_distinct(
                final(self).bookmarks(),
            ),
            final(self).entries() == old(self).entries(),
    {
        broadcast use vstd::seq_lib::group_filter_ensures;

        let ghost pred = |b: BookmarkEntry| b.id != id;
        let mut rest: Vec<BookmarkEntry> = Vec::new();
        std::mem::swap(&mut rest, &mut self.bookmarks);
        let ghost orig = rest@;
        let total: usize = rest.len();
        assert(orig.len() == total);
        let mut kept: Vec<BookmarkEntry> = Vec::new();
        let mut found = false;
        let mut i: usize = 0;
        while rest.len() > 0
            invariant
                i <= orig.len(),
                rest@ == orig.subrange(i as int, orig.len() as int),
                kept@ == orig.subrange(0, i as int).filter(pred),
                pred == (|b: BookmarkEntry| b.id != id),
                orig.len() <= usize::MAX,
                found == has_bookmark_id(orig.subrange(0, i as int), id),
            decreases rest.len(),
        {
            let e = rest.remove(0);
            proof {
                let s = orig.subrange(0, i + 1);
                assert(s.drop_last() =~= orig.subrange(0, i as int));
                assert(s.last() == e);
                assert(pred(e) == (e.id != id));
                reveal(Seq::filter);
                assert(s.filter(pred) == (if pred(s.last()) {
                    s.drop_last().filter(pred).push(s.last())
                } else {
                    s.drop_last().filter(pred)
                }));
                if has_bookmark_id(orig.subrange(0, i as int), id) {
                    let k = choose|k: int| 0 <= k < i && (#[trigger] orig.subrange(0, i as int)[k]).id == id;
                    assert(s[k] == orig.subrange(0, i as int)[k]);
                }
                if has_bookmark_id(s, id) && e.id != id {
                    let k = choose|k: int| 0 <= k < s.len() && (#[trigger] s[k]).id == id;
                    assert(orig.subrange(0, i as int)[k] == s[k]);
                }
            }
            if e.id == id {
                found = true;
            } else {
                kept.push(e);
            }
            i = i + 1;
            assert(rest@ =~= orig.subrange(i as int, orig.len() as int));
        }
        assert(orig.subrange(0, i as int) =~= orig);
        self.bookmarks = kept;
        proof {
            if has_bookmark_id(self.bookmarks@, id) {
                let k = choose|k: int| 0 <= k < self.bookmarks@.len() && (#[trigger] self.bookmarks@[k]).id == id;
                assert(orig.filter(pred).contains(self.bookmarks@[k]));
                assert(pred(self.bookmarks@[k]));
            }
            if bookmark_urls_distinct(orig) {
                lemma_filter_keeps_distinct(orig, pred);
            }
        }
        found
    }

    /// Number of history entries.
    pub fn history_count(&self) -> (r: usize)
        ensures
            r == self.entries().len(),
    {
        self.entries.len()
    }

    /// Number of bookmarks.
    pub fn bookmark_count(&self) -> (r: usize)
        ensures
            r == self.bookmarks().len(),
    {
        self.bookmarks.len()
    }
}

/// Searching for an entry's own URL finds it.
pub proof fn lemma_entry_matches_own_url(e: HistoryEntry)
    ensures
        matches_query(e, e.url@),
{
    let l = lowercase_text(e.url@);
    assert(l.subrange(0int, 0int + l.len()) =~= l);
}

} // verus!
