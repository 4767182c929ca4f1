use vstd::prelude::*;
use vstd::string::StringExecFns;

use crate::text::views;

verus! {

/// Chapters asked for in one page of a series feed.
pub const PAGE_SIZE: usize = 100;

/// A chapter of a manga series, as the series feed lists it.
#[derive(Debug, Clone, PartialEq, Eq)]
pub struct ChapterInfo {
    pub id: String,
    pub volume: Option<String>,
    pub chapter: Option<String>,
    pub title: Option<String>,
    pub external_url: Option<String>,
    pub pages: usize,
    pub created_at: String,
    /// Related entities, as pairs of type and id.
    pub relationships: Vec<(String, String)>,
}

/// The view of an optional string.
pub open spec fn opt_view(o: Option<String>) -> Option<Seq<char>> {
    match o {
        Some(s) => Some(s@),
        None => None,
    }
}

/// The heading of a chapter: the series title, then its volume, number
/// and title as far as they are known.
pub open spec fn chapter_heading(
    series: Seq<char>,
    volume: Option<Seq<char>>,
    chapter: Option<Seq<char>>,
    title: Option<Seq<char>>,
) -> Seq<char> {
    match (volume, chapter, title) {
        (Some(v), Some(c), Some(t)) => series + " - Volume "@ + v + ", Chapter "@ + c + " - "@ + t,
        (Some(v), Some(c), None) => series + " - Volume "@ + v + ", Chapter "@ + c,
        (None, Some(c), Some(t)) => series + " - Chapter "@ + c + " - "@ + t,
        (None, Some(c), None) => series + " - Chapter "@ + c,
        (None, None, Some(t)) => series + " - "@ + t,
        _ => series + " -- unknown chapter"@,
    }
}

/// Whether a chapter is only hosted elsewhere: it has no pages and a
/// non-empty external URL.
pub open spec fn is_external(pages: usize, external_url: Option<Seq<char>>) -> bool {
    pages == 0 && external_url is Some && external_url->0.len() > 0
}

/// The title of a chapter's feed item.
pub open spec fn chapter_title_text(series: Seq<char>, ch: ChapterInfo) -> Seq<char> {
    chapter_heading(series, opt_view(ch.volume), opt_view(ch.chapter), opt_view(ch.title)) + if is_external(
        ch.pages,
        opt_view(ch.external_url),
    ) {
        " (External)"@
    } else {
        Seq::empty()
    }
}

/// The title of a chapter's feed item in a series called `series`.
pub fn chapter_title(series: &str, ch: &ChapterInfo) -> (r: String)
    ensures
        r@ == chapter_title_text(series@, *ch),
{
    let mut r = String::from_str(series);
    match (&ch.volume, &ch.chapter, &ch.title) {
        (Some(v), Some(c), Some(t)) => {
            r.append(" - Volume ");
            r.append(v.as_str());
            r.append(", Chapter ");
            r.append(c.as_str());
            r.append(" - ");
            r.append(t.as_str());
        },
        (Some(v), Some(c), None) => {
            r.append(" - Volume ");
            r.append(v.as_str());
            r.append(", Chapter ");
            r.append(c.as_str());
        },
        (None, Some(c), Some(t)) => {
            r.append(" - Chapter ");
            r.append(c.as_str());
            r.append(" - ");
            r.append(t.as_str());
        },
        (None, Some(c), None) => {
            r.append(" - Chapter ");
            r.append(c.as_str());
        },
        (None, None, Some(t)) => {
            r.append(" - ");
            r.append(t.as_str());
        },
        _ => {
            r.append(" -- unknown chapter");
        },
    }
    let external = match &ch.external_url {
        Some(u) => ch.pages == 0 && u.as_str().unicode_len() > 0,
        None => false,
    };
    if external {
        r.append(" (External)");
    } else {
        assert(r@ + Seq::<char>::empty() =~= r@);
    }
    r
}

/// Whether a chapter was released by one of the blocked groups.
pub open spec fn blocked_spec(rels: Seq<(String, String)>, blocked: Seq<Seq<char>>) -> bool {
    exists|k: int|
        0 <= k < rels.len() && rels[k].0@ == "scanlation_group"@ && blocked.contains(
            (#[trigger] rels[k]).1@,
        )
}

/// Whether a chapter was released by one of the blocked groups.
pub fn chapter_blocked(ch: &ChapterInfo, blocked: &[String]) -> (r: bool)
    ensures
        r == blocked_spec(ch.relationships@, views(blocked@)),
{
    let kind = String::from_str("scanlation_group");
    let rels = &ch.relationships;
    let mut k: usize = 0;
    while k < rels.len()
        invariant
            k <= rels@.len(),
            rels == &ch.relationships,
            kind@ == "scanlation_group"@,
            forall|q: int|
                0 <= q < k ==> !(rels@[q].0@ == "scanlation_group"@ && views(blocked@).contains(
                    (#[trigger] rels@[q]).1@,
                )),
        decreases rels@.len() - k,
    {
        if rels[k].0 == kind {
            let mut j: usize = 0;
            while j < blocked.len()
                invariant
                    k < rels@.len(),
                    rels == &ch.relationships,
                    kind@ == "scanlation_group"@,
                    rels@[k as int].0@ == kind@,
                    j <= blocked@.len(),
                    forall|q: int| 0 <= q < j ==> blocked@[q]@ != rels@[k as int].1@,
                decreases blocked@.len() - j,
            {
                if blocked[j] == rels[k].1 {
                    assert(views(blocked@)[j as int] == rels@[k as int].1@);
                    assert(rels@[k as int].0@ == "scanlation_group"@);
                    assert(views(blocked@).contains(rels@[k as int].1@));
                    assert(blocked_spec(ch.relationships@, views(blocked@)));
                    return true;
                }
                j += 1;
            }
            assert(!views(blocked@).contains(rels@[k as int].1@)) by {
                if views(blocked@).contains(rels@[k as int].1@) {
                    let q = choose|q: int| 0 <= q < views(blocked@).len() && views(blocked@)[q] == rels@[k as int].1@;
                    assert(blocked@[q]@ == rels@[k as int].1@);
                }
            }
        }
        k += 1;
    }
    false
}

/// Where the paging through a series feed stands.
#[derive(Debug, Clone, PartialEq, Eq)]
pub struct ChapterPaging {
    pub offset: usize,
    pub total: usize,
}

/// A page that holds fewer chapters than asked for before the end.
#[derive(Debug, Clone, PartialEq, Eq)]
pub struct PagingError {
    pub offset: usize,
    pub total: usize,
    pub received: usize,
}

impl ChapterPaging {
    /// The paging before the first page, when the total is not known yet.
    pub fn new() -> (r: ChapterPaging)
        ensures
            r.offset == 0,
            r.total == 1,
    {
        ChapterPaging { offset: 0, total: 1 }
    }

    /// The offset of the next page to fetch, or nothing when all pages
    /// were fetched.
    pub fn next_offset(&self) -> (r: Option<usize>)
        ensures
            r == if self.offset < self.total {
                Some(self.offset)
            } else {
                None
            },
    {
        if self.offset < self.total {
            Some(self.offset)
        } else {
            None
        }
    }

    /// Takes in a page that held `received` chapters and gave `total` as
    /// the series' chapter count. A short page before the end is an error;
    /// otherwise paging moves on by one page.
    pub fn accept(&mut self, received: usize, total: usize) -> (r: Result<(), PagingError>)
        ensures
            final(self).total == total,
            (received != PAGE_SIZE && old(self).offset + received < total) ==> r == Err::<(), PagingError>(
                PagingError { offset: old(self).offset, total, received },
            ),
            !(received != PAGE_SIZE && old(self).offset + received < total) ==> r is Ok
                && final(self).offset == if old(self).offset + PAGE_SIZE <= usize::MAX {
                old(self).offset + PAGE_SIZE
            } else {
                usize::MAX as int
            },
    {
        self.total = total;
        if received != PAGE_SIZE && received < total && self.offset < total - received {
            return Err(PagingError { offset: self.offset, total, received });
        }
        self.offset = self.offset.saturating_add(PAGE_SIZE);
        Ok(())
    }
}

} // verus!
