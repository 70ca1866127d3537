use vstd::prelude::*;

verus! {

/// A heading of a rendered page: its level, its text and its anchor.
pub type Heading = (u8, String, String);

pub open spec fn heading_view(h: Heading) -> (u8, Seq<char>, Seq<char>) {
    (h.0, h.1@, h.2@)
}

pub open spec fn headings_view(v: Seq<Heading>) -> Seq<(u8, Seq<char>, Seq<char>)> {
    v.map_values(|h: Heading| heading_view(h))
}

/// One rendered page: its path, the modification time of its source (in
/// nanoseconds from the Unix epoch), its HTML and its headings.
pub struct PageEntry {
    pub path: String,
    pub modified: i128,
    pub html: String,
    pub headings: Vec<Heading>,
}

pub struct PageView {
    pub path: Seq<char>,
    pub modified: i128,
    pub html: Seq<char>,
    pub headings: Seq<(u8, Seq<char>, Seq<char>)>,
}

impl View for PageEntry {
    type V = PageView;

    open spec fn view(&self) -> PageView {
        PageView { path: self.path@, modified: self.modified, html: self.html@, headings: headings_view(self.headings@) }
    }
}

pub open spec fn find_page(es: Seq<PageView>, p: Seq<char>, i: int) -> int
    decreases es.len() - i,
{
    if i < 0 || i >= es.len() {
        -1
    } else if es[i].path == p {
        i
    } else {
        find_page(es, p, i + 1)
    }
}

proof fn lemma_find_page(es: Seq<PageView>, p: Seq<char>, i: int)
    requires
        0 <= i <= es.len(),
    ensures
        find_page(es, p, i) == -1 || (i <= find_page(es, p, i) < es.len() && es[find_page(es, p, i)].path == p),
        find_page(es, p, i) == -1 ==> forall|j: int| i <= j < es.len() ==> #[trigger] es[j].path != p,
    decreases es.len() - i,
{
    if i < es.len() && es[i].path != p {
        lemma_find_page(es, p, i + 1);
    }
}

/// Rendered pages, each kept with the modification time of its source so
/// that a changed source is rendered again.
pub struct MarkdownCache {
    entries: Vec<PageEntry>,
}

fn copy_headings(h: &Vec<Heading>) -> (r: Vec<Heading>)
    ensures
        headings_view(r@) == headings_view(h@),
{
    let mut r: Vec<Heading> = Vec::new();
    let mut i: usize = 0;
    while i < h.len()
        invariant
            i <= h@.len(),
            headings_view(r@) == headings_view(h@.take(i as int)),
        decreases h.len() - i,
    {
        let t = &h[i];
        let ghost prev = r@;
        let copy = (t.0, t.1.clone(), t.2.clone());
        assert(heading_view(copy) == heading_view(h@[i as int]));
        r.push(copy);
        i = i + 1;
        assert(h@.take(i as int) =~= h@.take(i - 1).push(h@[i - 1]));
        assert(r@ =~= prev.push(copy));
        assert(headings_view(r@) =~= headings_view(prev).push(heading_view(copy)));
        assert(headings_view(h@.take(i as int)) =~= headings_view(h@.take(i - 1)).push(heading_view(h@[i - 1])));
    }
    assert(h@.take(h@.len() as int) =~= h@);
    r
}

impl MarkdownCache {
    /// The pages in the order they were first stored.
    pub closed spec fn pages(&self) -> Seq<PageView> {
        self.entries@.map_values(|e: PageEntry| e@)
    }

    /// Each path is stored at most once.
    pub open spec fn wf(&self) -> bool {
        forall|i: int, j: int| 0 <= i < j < self.pages().len() ==> #[trigger] self.pages()[i].path != #[trigger] self.pages()[j].path
    }

    /// An empty cache.
    pub fn new() -> (c: MarkdownCache)
        ensures
            c.wf(),
            c.pages() == Seq::<PageView>::empty(),
    {
        let c = MarkdownCache { entries: Vec::new() };
        assert(c.pages() =~= Seq::<PageView>::empty());
        c
    }

    /// The HTML and headings of `path`, if they were stored for a source
    /// modified at `current_modified`; a stale or missing page gives `None`.
    pub fn get_if_fresh(&self, path: &str, current_modified: i128) -> (r: Option<(String, Vec<Heading>)>)
        requires
            self.wf(),
        ensures
            ({
                let i = find_page(self.pages(), path@, 0);
                if i >= 0 && self.pages()[i].modified == current_modified {
                    r is Some && (r->0).0@ == self.pages()[i].html && headings_view((r->0).1@) == self.pages()[i].headings
                } else {
                    r is None
                }
            }),
    {
        let key = path.to_owned();
        proof {
            lemma_find_page(self.pages(), path@, 0);
        }
        let mut i: usize = 0;
        while i < self.entries.len()
            invariant
                i <= self.entries@.len(),
                key@ == path@,
                forall|j: int| 0 <= j < i ==> #[trigger] self.pages()[j].path != path@,
                find_page(self.pages(), path@, 0) == find_page(self.pages(), path@, i as int),
            decreases self.entries.len() - i,
        {
            let e = &self.entries[i];
            assert(self.pages()[i as int] == e@);
            if e.path == key {
                if e.modified == current_modified {
                    return Some((e.html.clone(), copy_headings(&e.headings)));
                } else {
                    return None;
                }
            }
            i = i + 1;
        }
        None
    }

    /// Stores the rendering of `path`, replacing an earlier one.
    pub fn set(&mut self, path: String, modified: i128, html: String, headings: Vec<Heading>)
        requires
            old(self).wf(),
        ensures
            final(self).wf(),
            ({
                let i = find_page(old(self).pages(), path@, 0);
                let e = PageView { path: path@, modified, html: html@, headings: headings_view(headings@) };
                if i >= 0 {
                    final(self).pages() == old(self).pages().update(i, e)
                } else {
                    final(self).pages() == old(self).pages().push(e)
                }
            }),
    {
        proof {
            lemma_find_page(old(self).pages(), path@, 0);
        }
        let ghost es = old(self).pages();
        let entry = PageEntry { path, modified, html, headings };
        let mut i: usize = 0;
        while i < self.entries.len()
            invariant
                old(self).wf(),
                es == old(self).pages(),
                entry.path@ == path@,
                entry@ == (PageView { path: path@, modified, html: html@, headings: headings_view(headings@) }),
                self.pages() == es,
                self.entries@ == old(self).entries@,
                i <= self.entries@.len(),
                forall|j: int| 0 <= j < i ==> #[trigger] es[j].path != entry.path@,
                find_page(es, entry.path@, 0) == find_page(es, entry.path@, i as int),
            decreases self.entries.len() - i,
        {
            assert(es[i as int] == self.entries@[i as int]@);
            if self.entries[i].path == entry.path {
                let ghost ev = entry@;
                assert(find_page(es, ev.path, i as int) == i);
                assert(ev.path == es[i as int].path);
                self.entries.set(i, entry);
                assert(self.pages() =~= es.update(i as int, ev));
                assert forall|a: int, b: int| 0 <= a < b < self.pages().len() implies #[trigger] self.pages()[a].path
                    != #[trigger] self.pages()[b].path by {
                    assert(es[a].path != es[b].path);
                    assert(self.pages()[a].path == es[a].path);
                    assert(self.pages()[b].path == es[b].path);
                }
                return;
            }
            i = i + 1;
        }
        let ghost ev = entry@;
        self.entries.push(entry);
        assert(self.pages() =~= es.push(ev));
        assert forall|a: int, b: int| 0 <= a < b < self.pages().len() implies #[trigger] self.pages()[a].path
            != #[trigger] self.pages()[b].path by {
            if b < es.len() {
                assert(old(self).pages()[a].path != old(self).pages()[b].path);
            }
        }
    }
}

} // verus!
