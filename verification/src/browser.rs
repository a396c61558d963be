//! File browser model: a directory's entries, a selection, and navigation in
//! and out. Reading directories is left to the caller, which hands each
//! listing to `refresh`.
use vstd::prelude::*;

use crate::paths::{dir_of, opt_seq, parent_dir, parent_of, path_parent};
use crate::strings::{chars_of, lemma_lex_lt_asym, lex_lt, lex_lt_exec, lowercase, to_lowercase};

verus! {

broadcast use vstd::seq_lib::group_to_multiset_ensures;

/// One item of a directory listing.
pub struct Entry {
    pub name: String,
    pub path: String,
    pub is_dir: bool,
}

/// Outcome of activating (Enter on) the selected entry.
pub enum Activate {
    /// The user descended into a directory (or nothing was selected).
    Navigated,
    /// The user chose a file to open in the editor.
    OpenFile(String),
}

pub struct Browser {
    cwd: String,
    entries: Vec<Entry>,
    selected: usize,
}

/// The abstract state of a browser.
pub struct BrowserModel {
    pub cwd: Seq<char>,
    pub entries: Seq<Entry>,
    pub selected: int,
}

/// Dotfiles are not listed.
pub open spec fn is_hidden(name: Seq<char>) -> bool {
    name.len() > 0 && name[0] == '.'
}

pub open spec fn is_visible(e: Entry) -> bool {
    !is_hidden(e.name@)
}

/// `a` sorts strictly before `b`: directories first, then by lowercase name.
pub open spec fn entry_lt(a: Entry, b: Entry) -> bool {
    (a.is_dir && !b.is_dir) || (a.is_dir == b.is_dir && lex_lt(
        lowercase(a.name@),
        lowercase(b.name@),
    ))
}

pub open spec fn entry_le(a: Entry, b: Entry) -> bool {
    !entry_lt(b, a)
}

/// Each entry sorts no later than the next one.
pub open spec fn sorted_entries(es: Seq<Entry>) -> bool {
    forall|i: int| 0 <= i < es.len() - 1 ==> #[trigger] entry_le(es[i], es[i + 1])
}

/// `s` with `e` inserted after every entry that does not sort after it (the
/// step of a stable insertion sort).
pub open spec fn insert_sorted(s: Seq<Entry>, e: Entry) -> Seq<Entry>
    decreases s.len(),
{
    if s.len() == 0 || !entry_lt(e, s.last()) {
        s.push(e)
    } else {
        insert_sorted(s.drop_last(), e).push(s.last())
    }
}

/// The stable sort of `es`: directories first, then by lowercase name;
/// entries that compare equal keep their order.
pub open spec fn stable_sorted(es: Seq<Entry>) -> Seq<Entry>
    decreases es.len(),
{
    if es.len() == 0 {
        Seq::empty()
    } else {
        insert_sorted(stable_sorted(es.drop_last()), es.last())
    }
}

/// The selection after the list changed length: kept, but clamped to the
/// last entry (0 for an empty list).
pub open spec fn clamp_selected(sel: int, len: int) -> int {
    if len == 0 {
        0
    } else if sel > len - 1 {
        len - 1
    } else {
        sel
    }
}

/// The directory a browser started on `start` shows.
pub open spec fn start_dir_of(start: Seq<char>, start_is_dir: bool) -> Seq<char> {
    if start_is_dir {
        start
    } else {
        dir_of(start)
    }
}

impl BrowserModel {
    pub open spec fn wf(self) -> bool {
        0 <= self.selected && (self.selected == 0 || self.selected < self.entries.len())
    }

    /// The state after re-reading the directory: `listing`'s visible entries,
    /// sorted; the selection clamped.
    pub open spec fn refreshed_by(self, next: BrowserModel, listing: Seq<Entry>) -> bool {
        &&& next.cwd == self.cwd
        &&& next.entries == stable_sorted(listing.filter(|e: Entry| is_visible(e)))
        &&& next.entries.to_multiset() == listing.filter(|e: Entry| is_visible(e)).to_multiset()
        &&& sorted_entries(next.entries)
        &&& next.selected == clamp_selected(self.selected, next.entries.len() as int)
    }

    pub open spec fn selected_next(self) -> BrowserModel {
        if self.entries.len() > 0 {
            BrowserModel {
                selected: if self.selected + 1 < self.entries.len() {
                    self.selected + 1
                } else {
                    self.entries.len() - 1
                },
                ..self
            }
        } else {
            self
        }
    }

    pub open spec fn selected_prev(self) -> BrowserModel {
        BrowserModel { selected: if self.selected > 0 { self.selected - 1 } else { 0 }, ..self }
    }
}

impl View for Browser {
    type V = BrowserModel;

    closed spec fn view(&self) -> BrowserModel {
        BrowserModel { cwd: self.cwd@, entries: self.entries@, selected: self.selected as int }
    }
}

/// Each key is the lowercase name of the entry at the same index.
spec fn keys_match(keys: Seq<Vec<char>>, es: Seq<Entry>) -> bool {
    keys.len() == es.len() && forall|i: int|
        0 <= i < es.len() ==> (#[trigger] keys[i])@ == lowercase(es[i].name@)
}

fn name_is_hidden(name: &str) -> (r: bool)
    ensures
        r == is_hidden(name@),
{
    let cs = chars_of(name);
    cs.len() > 0 && cs[0] == '.'
}

/// Does `a` (with lowercase name `ka`) sort strictly before `b`?
fn entry_lt_exec(a: &Entry, ka: &Vec<char>, b: &Entry, kb: &Vec<char>) -> (r: bool)
    requires
        ka@ == lowercase(a.name@),
        kb@ == lowercase(b.name@),
    ensures
        r == entry_lt(*a, *b),
{
    if a.is_dir && !b.is_dir {
        true
    } else if a.is_dir == b.is_dir {
        lex_lt_exec(ka, kb)
    } else {
        false
    }
}

impl Browser {
    pub open spec fn wf(&self) -> bool {
        self@.wf()
    }

    /// The directory to show for a browser started on `start`: `start`
    /// itself when it is a directory, else the directory holding it (`.` for
    /// a bare file name).
    pub fn start_dir(start: &str, start_is_dir: bool) -> (r: String)
        ensures
            r@ == start_dir_of(start@, start_is_dir),
    {
        if start_is_dir {
            String::from_str(start)
        } else {
            parent_dir(start)
        }
    }

    /// A browser on `cwd` showing `listing` (the directory's items).
    pub fn new(cwd: String, listing: Vec<Entry>) -> (b: Self)
        ensures
            b.wf(),
            (BrowserModel { cwd: cwd@, entries: Seq::empty(), selected: 0 }).refreshed_by(
                b@,
                listing@,
            ),
    {
        let mut browser = Browser { cwd, entries: Vec::new(), selected: 0 };
        browser.refresh(listing);
        browser
    }

    pub fn cwd(&self) -> (r: &str)
        ensures
            r@ == self@.cwd,
    {
        self.cwd.as_str()
    }

    pub fn entries(&self) -> (r: &[Entry])
        ensures
            r@ == self@.entries,
    {
        self.entries.as_slice()
    }

    pub fn selected(&self) -> (r: usize)
        ensures
            r == self@.selected,
    {
        self.selected
    }

    /// Whether the selected entry is a directory (`None` when nothing is
    /// selected).
    pub fn selected_is_dir(&self) -> (r: Option<bool>)
        ensures
            r == (if 0 <= self@.selected < self@.entries.len() {
                Some(self@.entries[self@.selected].is_dir)
            } else {
                None
            }),
    {
        if self.selected < self.entries.len() {
            Some(self.entries[self.selected].is_dir)
        } else {
            None
        }
    }

    pub fn select_next(&mut self)
        requires
            old(self).wf(),
        ensures
            final(self).wf(),
            final(self)@ == old(self)@.selected_next(),
    {
        if self.entries.len() > 0 {
            let last = self.entries.len() - 1;
            self.selected = if self.selected + 1 < last + 1 {
                self.selected + 1
            } else {
                last
            };
        }
    }

    pub fn select_prev(&mut self)
        requires
            old(self).wf(),
        ensures
            final(self).wf(),
            final(self)@ == old(self)@.selected_prev(),
    {
        self.selected = if self.selected > 0 {
            self.selected - 1
        } else {
            0
        };
    }

    /// Activate the current selection: a directory becomes the new current
    /// directory (selection reset; the caller then re-reads it), a file is
    /// returned to be opened.
    pub fn activate(&mut self) -> (r: Activate)
        requires
            old(self).wf(),
        ensures
            final(self).wf(),
            final(self)@.entries == old(self)@.entries,
            match r {
                Activate::Navigated => if 0 <= old(self)@.selected < old(self)@.entries.len()
                    && old(self)@.entries[old(self)@.selected].is_dir {
                    final(self)@.cwd == old(self)@.entries[old(self)@.selected].path@
                        && final(self)@.selected == 0
                } else {
                    !(0 <= old(self)@.selected < old(self)@.entries.len()) && final(self)@
                        == old(self)@
                },
                Activate::OpenFile(p) => 0 <= old(self)@.selected < old(self)@.entries.len()
                    && !old(self)@.entries[old(self)@.selected].is_dir && p@ == old(
                    self,
                )@.entries[old(self)@.selected].path@ && final(self)@ == old(self)@,
            },
    {
        if self.selected >= self.entries.len() {
            return Activate::Navigated;
        }
        let is_dir = self.entries[self.selected].is_dir;
        let path = self.entries[self.selected].path.clone();
        if is_dir {
            self.cwd = path;
            self.selected = 0;
            Activate::Navigated
        } else {
            Activate::OpenFile(path)
        }
    }

    /// Go up to the parent directory. Returns whether the directory changed
    /// (and so must be re-read).
    pub fn go_up(&mut self) -> (moved: bool)
        requires
            old(self).wf(),
        ensures
            final(self).wf(),
            final(self)@.entries == old(self)@.entries,
            moved == parent_of(old(self)@.cwd).is_some(),
            moved ==> final(self)@.cwd == parent_of(old(self)@.cwd).unwrap() && final(self)@.selected
                == 0,
            !moved ==> final(self)@ == old(self)@,
    {
        match path_parent(self.cwd.as_str()) {
            Some(parent) => {
                self.cwd = parent;
                self.selected = 0;
                true
            },
            None => false,
        }
    }

    /// Replace the entries with a new listing of the current directory:
    /// dotfiles are skipped, directories sort first, then files, both by
    /// lowercase name; the selection is clamped.
    pub fn refresh(&mut self, listing: Vec<Entry>)
        ensures
            final(self).wf(),
            old(self)@.refreshed_by(final(self)@, listing@),
    {
        let ghost orig = listing@;
        let ghost vis = |e: Entry| is_visible(e);
        let mut listing = listing;
        let mut sorted: Vec<Entry> = Vec::new();
        let mut keys: Vec<Vec<char>> = Vec::new();
        let ghost mut k: int = 0;
        while listing.len() > 0
            invariant
                0 <= k <= orig.len(),
                vis == (|e: Entry| is_visible(e)),
                listing@ == orig.subrange(k, orig.len() as int),
                sorted@ == stable_sorted(orig.subrange(0, k).filter(vis)),
                sorted@.to_multiset() == orig.subrange(0, k).filter(vis).to_multiset(),
                sorted_entries(sorted@),
                keys_match(keys@, sorted@),
            decreases listing.len(),
        {
            let e = listing.remove(0);
            proof {
                assert(e == orig[k]);
                assert(orig.subrange(0, k + 1) =~= orig.subrange(0, k).push(e));
                reveal(Seq::filter);
                let pre = orig.subrange(0, k + 1);
                assert(pre.len() == k + 1);
                assert(pre.drop_last() =~= orig.subrange(0, k));
                assert(pre.last() == e);
                assert(pre.filter(vis) == if vis(pre.last()) {
                    pre.drop_last().filter(vis).push(pre.last())
                } else {
                    pre.drop_last().filter(vis)
                });
                assert(vis(e) == is_visible(e));
                assert(listing@ =~= orig.subrange(k + 1, orig.len() as int));
                assert(orig.subrange(0, k + 1).filter(vis) == if is_visible(e) {
                    orig.subrange(0, k).filter(vis).push(e)
                } else {
                    orig.subrange(0, k).filter(vis)
                });
            }
            if !name_is_hidden(e.name.as_str()) {
                let key = chars_of(to_lowercase(e.name.as_str()).as_str());
                let mut p = sorted.len();
                while p > 0 && entry_lt_exec(&e, &key, &sorted[p - 1], &keys[p - 1])
                    invariant
                        p <= sorted.len(),
                        keys_match(keys@, sorted@),
                        key@ == lowercase(e.name@),
                        forall|j: int| p <= j < sorted.len() ==> #[trigger] entry_lt(e, sorted@[j]),
                    decreases p,
                {
                    p = p - 1;
                }
                let ghost before = sorted@;
                proof {
                    if p < before.len() {
                        lemma_entry_lt_asym(e, before[p as int]);
                    }
                    if p > 0 {
                        assert(entry_le(before[p - 1], e));
                    }
                }
                sorted.insert(p, e);
                keys.insert(p, key);
                proof {
                    lemma_insert_at(before, e, p as int);
                    let f = orig.subrange(0, k).filter(vis);
                    assert(f.push(e).drop_last() =~= f);
                    assert(stable_sorted(f.push(e)) == insert_sorted(stable_sorted(f), e));
                    let s2 = sorted@;
                    assert(s2 == before.insert(p as int, e));
                    assert forall|i: int| 0 <= i < s2.len() - 1 implies #[trigger] entry_le(
                        s2[i],
                        s2[i + 1],
                    ) by {
                        if i + 1 < p {
                            assert(entry_le(before[i], before[i + 1]));
                        } else if i + 1 == p {
                        } else if i == p {
                        } else {
                            let j = i - 1;
                            assert(entry_le(before[j], before[j + 1]));
                        }
                    }
                    assert(keys_match(keys@, sorted@)) by {
                        assert forall|i: int| 0 <= i < sorted@.len() implies (
                        #[trigger] keys@[i])@ == lowercase(sorted@[i].name@) by {
                            if i < p {
                            } else if i == p {
                            } else {
                            }
                        }
                    }
                    vstd::seq_lib::to_multiset_insert(before, p as int, e);
                    assert(sorted@.to_multiset() == before.to_multiset().insert(e));
                    assert(orig.subrange(0, k).filter(vis).push(e).to_multiset() == orig.subrange(
                        0,
                        k,
                    ).filter(vis).to_multiset().insert(e));
                }
            }
            proof {
                k = k + 1;
            }
        }
        proof {
            assert(orig.subrange(0, k) =~= orig);
        }
        self.entries = sorted;
        let len = self.entries.len();
        if len == 0 {
            self.selected = 0;
        } else if self.selected > len - 1 {
            self.selected = len - 1;
        }
    }
}

/// Inserting at `p`, just after the last entry that does not sort after
/// `e`, is `insert_sorted`.
proof fn lemma_insert_at(s: Seq<Entry>, e: Entry, p: int)
    requires
        0 <= p <= s.len(),
        forall|j: int| p <= j < s.len() ==> #[trigger] entry_lt(e, s[j]),
        p == 0 || !entry_lt(e, s[p - 1]),
    ensures
        insert_sorted(s, e) == s.insert(p, e),
    decreases s.len(),
{
    if s.len() == 0 {
        assert(s.insert(p, e) =~= s.push(e));
    } else if p == s.len() {
        assert(s.insert(p, e) =~= s.push(e));
    } else {
        assert(entry_lt(e, s[s.len() - 1]));
        let d = s.drop_last();
        lemma_insert_at(d, e, p);
        assert(d.insert(p, e).push(s.last()) =~= s.insert(p, e));
    }
}

pub proof fn lemma_entry_lt_asym(a: Entry, b: Entry)
    ensures
        entry_lt(a, b) ==> !entry_lt(b, a),
{
    lemma_lex_lt_asym(lowercase(a.name@), lowercase(b.name@));
}

// ─── Laws ───────────────────────────────────────────────────────────────

/// The selection never leaves the list: in every well-formed state (which
/// every `Browser` method keeps) it is 0 on an empty list and a valid index
/// otherwise, and `select_next`/`select_prev` keep it so.
pub proof fn law_selection_stays_in_range(m: BrowserModel)
    requires
        m.wf(),
    ensures
        (m.entries.len() == 0 && m.selected == 0) || 0 <= m.selected < m.entries.len(),
        m.selected_next().wf(),
        m.selected_prev().wf(),
        m.entries.len() > 0 ==> 0 <= m.selected_next().selected < m.entries.len(),
{
}

/// Up and down move the selection by exactly one entry, stopping at the ends;
/// neither changes the directory or its entries.
pub proof fn law_select_moves_by_one(m: BrowserModel)
    requires
        m.wf(),
    ensures
        m.selected > 0 ==> m.selected_prev().selected == m.selected - 1,
        m.selected == 0 ==> m.selected_prev().selected == 0,
        m.selected + 1 < m.entries.len() ==> m.selected_next().selected == m.selected + 1,
        m.entries.len() > 0 && m.selected + 1 >= m.entries.len() ==> m.selected_next().selected
            == m.entries.len() - 1,
        m.selected_prev().entries == m.entries && m.selected_prev().cwd == m.cwd,
        m.selected_next().entries == m.entries && m.selected_next().cwd == m.cwd,
{
}

/// After a refresh, every directory is listed before every file.
pub proof fn law_directories_first(es: Seq<Entry>, i: int, j: int)
    requires
        sorted_entries(es),
        0 <= i < j < es.len(),
        es[j].is_dir,
    ensures
        es[i].is_dir,
    decreases j - i,
{
    if i + 1 < j {
        law_directories_first(es, i + 1, j);
        assert(entry_le(es[i], es[i + 1]));
    } else {
        assert(entry_le(es[i], es[i + 1]));
    }
}

/// A refresh never shows a dotfile and never drops a visible entry.
pub proof fn law_refresh_shows_visible(m: BrowserModel, next: BrowserModel, listing: Seq<Entry>, e: Entry)
    requires
        m.refreshed_by(next, listing),
    ensures
        next.entries.contains(e) <==> (listing.contains(e) && is_visible(e)),
{
    let vis = |x: Entry| is_visible(x);
    assert(next.entries.contains(e) <==> next.entries.to_multiset().count(e) > 0);
    assert(listing.filter(vis).contains(e) <==> listing.filter(vis).to_multiset().count(e) > 0);
    if listing.contains(e) && is_visible(e) {
        let i = choose|i: int| 0 <= i < listing.len() && listing[i] == e;
        listing.lemma_filter_contains(vis, i);
    }
    if listing.filter(vis).contains(e) {
        listing.lemma_filter_contains_rev(vis, e);
    }
}

} // verus!
