//! The interactive selection controller: a live case-insensitive substring
//! filter over the entry list, the derived visible indices, and a cursor
//! that only ever rests on a device entry, never on a section header.

use vstd::prelude::*;

use crate::emulators::{entry_name, EmulatorEntry};
use crate::text::{contains_seq, contains_str, lower_of, lowercase, push_char};

verus! {

broadcast use vstd::seq_lib::group_seq_lib_default, vstd::seq::group_seq_axioms;

/// A device entry matches the (lowercased) query, or the query is empty.
pub open spec fn device_matches(e: EmulatorEntry, q: Seq<char>) -> bool {
    q.len() == 0 || contains_seq(lower_of(entry_name(e)), q)
}

/// Some device between the header at `h` and the next header (or the end
/// of the list) matches the query.
pub open spec fn section_has_match_spec(entries: Seq<EmulatorEntry>, h: int, q: Seq<char>) -> bool {
    exists|j: int|
        h < j < entries.len() && !((#[trigger] entries[j]) is SectionHeader) && (forall|k: int|
            h < k < j ==> !((#[trigger] entries[k]) is SectionHeader)) && contains_seq(
            lower_of(entry_name(entries[j])),
            q,
        )
}

/// The entry at `i` passes the filter: an empty query keeps everything, a
/// device must match it, and a header must have a matching device in its
/// section.
pub open spec fn entry_visible(entries: Seq<EmulatorEntry>, i: int, q: Seq<char>) -> bool {
    if entries[i] is SectionHeader {
        q.len() == 0 || section_has_match_spec(entries, i, q)
    } else {
        device_matches(entries[i], q)
    }
}

/// The indices from `i` on that pass the filter, in order.
pub open spec fn visible_from(entries: Seq<EmulatorEntry>, q: Seq<char>, i: int) -> Seq<usize>
    decreases entries.len() - i,
{
    if i < 0 || i >= entries.len() {
        seq![]
    } else if entry_visible(entries, i, q) {
        seq![i as usize] + visible_from(entries, q, i + 1)
    } else {
        visible_from(entries, q, i + 1)
    }
}

/// The visible indices under query `q`: the ordered subsequence of entry
/// indices that pass the filter.
pub open spec fn visible_spec(entries: Seq<EmulatorEntry>, q: Seq<char>) -> Seq<usize> {
    visible_from(entries, q, 0)
}

/// The positions from `p` on within `vis` that carry a device entry.
pub open spec fn selectable_from(entries: Seq<EmulatorEntry>, vis: Seq<usize>, p: int) -> Seq<
    usize,
>
    decreases vis.len() - p,
{
    if p < 0 || p >= vis.len() {
        seq![]
    } else if (vis[p] as int) < entries.len() && !(entries[vis[p] as int] is SectionHeader) {
        seq![p as usize] + selectable_from(entries, vis, p + 1)
    } else {
        selectable_from(entries, vis, p + 1)
    }
}

/// The selectable positions within the visible list: those not resting on
/// a section header.
pub open spec fn selectable_spec(entries: Seq<EmulatorEntry>, vis: Seq<usize>) -> Seq<usize> {
    selectable_from(entries, vis, 0)
}

/// Position of the first occurrence of `x` in `sel`, or `sel.len()`.
pub open spec fn find_pos(sel: Seq<usize>, x: usize) -> nat
    decreases sel.len(),
{
    if sel.len() == 0 {
        0
    } else if sel[0] == x {
        0
    } else {
        (find_pos(sel.drop_first(), x) + 1) as nat
    }
}

/// The visible indices are exactly the entry indices that pass the
/// filter: membership in `visible_from` characterizes `entry_visible`.
proof fn lemma_visible_from_membership(entries: Seq<EmulatorEntry>, q: Seq<char>, s: int)
    requires
        0 <= s <= entries.len(),
        entries.len() <= usize::MAX,
    ensures
        forall|i: int|
            s <= i < entries.len() ==> (entry_visible(entries, i, q) <==> visible_from(
                entries,
                q,
                s,
            ).contains(i as usize)),
        forall|x: usize|
            #[trigger] visible_from(entries, q, s).contains(x) ==> s <= x < entries.len(),
    decreases entries.len() - s,
{
    let v = visible_from(entries, q, s);
    if s == entries.len() {
        assert(v.len() == 0);
    } else {
        lemma_visible_from_membership(entries, q, s + 1);
        let t = visible_from(entries, q, s + 1);
        if entry_visible(entries, s, q) {
            assert(v == seq![s as usize] + t);
            assert(v[0] == s as usize);
            assert(v.contains(s as usize));
            assert forall|x: usize| #[trigger] v.contains(x) implies (x == s as usize
                || t.contains(x)) by {
                let k = choose|k: int| 0 <= k < v.len() && v[k] == x;
                if k > 0 {
                    assert(t[k - 1] == x);
                }
            }
            assert forall|x: usize| #[trigger] t.contains(x) implies v.contains(x) by {
                let k = choose|k: int| 0 <= k < t.len() && t[k] == x;
                assert(v[k + 1] == x);
            }
            assert forall|i: int| s <= i < entries.len() implies (entry_visible(entries, i, q)
                <==> v.contains(i as usize)) by {
                if i > s {
                    assert(entry_visible(entries, i, q) <==> t.contains(i as usize));
                    assert(i as usize != s as usize);
                    if v.contains(i as usize) {
                        assert(t.contains(i as usize));
                    }
                    if t.contains(i as usize) {
                        assert(v.contains(i as usize));
                    }
                }
            }
            assert forall|x: usize| #[trigger] v.contains(x) implies s <= x < entries.len() by {
                if x != s as usize {
                    assert(t.contains(x));
                }
            }
        } else {
            assert(v == t);
            assert forall|i: int| s <= i < entries.len() implies (entry_visible(entries, i, q)
                <==> v.contains(i as usize)) by {
                if i == s {
                    if v.contains(s as usize) {
                        assert(t.contains(s as usize));
                        assert(s + 1 <= s);
                    }
                } else {
                    assert(entry_visible(entries, i, q) <==> t.contains(i as usize));
                }
            }
        }
    }
}

/// Every visible section header is followed, within its own section, by
/// a visible device entry.
pub open spec fn headers_have_visible_devices(
    entries: Seq<EmulatorEntry>,
    vis: Seq<usize>,
) -> bool {
    forall|k: int|
        0 <= k < vis.len() && entries[(#[trigger] vis[k]) as int] is SectionHeader ==> exists|
            j: int,
        |
            (vis[k] as int) < j < entries.len() && !((#[trigger] entries[j]) is SectionHeader) && (
            forall|t: int|
                (vis[k] as int) < t < j ==> !((#[trigger] entries[t]) is SectionHeader))
                && vis.contains(j as usize)
}

/// Under a non-empty query every visible section header has at least one
/// visible device in its section: what makes a header visible is a
/// matching device between it and the next header, and a matching device
/// is itself visible.
pub proof fn lemma_visible_headers_have_devices(entries: Seq<EmulatorEntry>, q: Seq<char>)
    requires
        q.len() > 0,
        entries.len() <= usize::MAX,
    ensures
        headers_have_visible_devices(entries, visible_spec(entries, q)),
{
    lemma_visible_from_membership(entries, q, 0);
    let vis = visible_spec(entries, q);
    assert forall|k: int|
        0 <= k < vis.len() && entries[(#[trigger] vis[k]) as int] is SectionHeader implies exists|
            j: int,
        |
            (vis[k] as int) < j < entries.len() && !((#[trigger] entries[j]) is SectionHeader) && (
            forall|t: int|
                (vis[k] as int) < t < j ==> !((#[trigger] entries[t]) is SectionHeader))
                && vis.contains(j as usize) by {
        let h = vis[k] as int;
        assert(vis.contains(vis[k]));
        assert(0 <= h < entries.len());
        assert(entry_visible(entries, h, q));
        assert(section_has_match_spec(entries, h, q));
        let j = choose|j: int|
            h < j < entries.len() && !((#[trigger] entries[j]) is SectionHeader) && (forall|k2: int|
                h < k2 < j ==> !((#[trigger] entries[k2]) is SectionHeader)) && contains_seq(
                lower_of(entry_name(entries[j])),
                q,
            );
        assert(entry_visible(entries, j, q));
        assert(vis.contains(j as usize));
    }
}

/// The interactive selection state: the full entry list, the live filter,
/// the derived visible indices, and the cursor as a position within them.
pub struct App {
    pub entries: Vec<EmulatorEntry>,
    pub filter: String,
    pub filtered_indices: Vec<usize>,
    pub cursor: Option<usize>,
}

impl App {
    /// The state is consistent: the visible indices are exactly those the
    /// filter derives (and in bounds), and the cursor rests on a visible
    /// device entry, being undefined exactly when none is selectable.
    pub open spec fn wf(self) -> bool {
        &&& self.filtered_indices@ == visible_spec(self.entries@, lower_of(self.filter@))
        &&& forall|k: int|
            0 <= k < self.filtered_indices@.len() ==> (#[trigger] self.filtered_indices@[k])
                < self.entries@.len()
        &&& match self.cursor {
            Some(c) => c < self.filtered_indices@.len() && !(self.entries@[self.filtered_indices@[c as int] as int] is SectionHeader),
            None => selectable_spec(self.entries@, self.filtered_indices@).len() == 0,
        }
    }

    /// Some device in the section headed at `header_idx` matches the
    /// lowercased query.
    fn section_has_match(&self, header_idx: usize, q: &str) -> (r: bool)
        requires
            header_idx < self.entries@.len(),
        ensures
            r == (q@.len() == 0 || section_has_match_spec(self.entries@, header_idx as int, q@)),
    {
        if q.unicode_len() == 0 {
            return true;
        }
        let n = self.entries.len();
        let mut j = header_idx + 1;
        while j < n
            invariant
                n == self.entries@.len(),
                header_idx < j <= n,
                q@.len() > 0,
                forall|k: int|
                    header_idx < k < j ==> !((#[trigger] self.entries@[k]) is SectionHeader)
                        && !contains_seq(lower_of(entry_name(self.entries@[k])), q@),
            decreases n - j,
        {
            if self.entries[j].is_header() {
                assert forall|j2: int|
                    header_idx < j2 < n && !((#[trigger] self.entries@[j2]) is SectionHeader) && (
                    forall|k: int|
                        header_idx < k < j2 ==> !((#[trigger] self.entries@[k])
                            is SectionHeader)) implies !contains_seq(
                    lower_of(entry_name(self.entries@[j2])),
                    q@,
                ) by {
                    if j2 > j {
                        assert(self.entries@[j as int] is SectionHeader);
                        assert(false);
                    }
                }
                return false;
            }
            let name_lower = lowercase(self.entries[j].display_name());
            if contains_str(name_lower.as_str(), q) {
                assert(section_has_match_spec(self.entries@, header_idx as int, q@)) by {
                    assert(header_idx < j < n && !(self.entries@[j as int] is SectionHeader) && (
                    forall|k: int|
                        header_idx < k < j as int ==> !((#[trigger] self.entries@[k])
                            is SectionHeader)) && contains_seq(
                        lower_of(entry_name(self.entries@[j as int])),
                        q@,
                    ));
                }
                return true;
            }
            j = j + 1;
        }
        assert forall|j2: int|
            header_idx < j2 < n && !((#[trigger] self.entries@[j2]) is SectionHeader) implies !contains_seq(
            lower_of(entry_name(self.entries@[j2])),
            q@,
        ) by {}
        false
    }

    /// Recompute the visible indices from the current filter and reset the
    /// cursor to the first selectable visible entry, if any.
    pub fn apply_filter(&mut self)
        ensures
            final (self).wf(),
            final (self).entries == old(self).entries,
            final (self).filter == old(self).filter,
            final (self).filtered_indices@ == visible_spec(
                old(self).entries@,
                lower_of(old(self).filter@),
            ),
            final (self).cursor == {
                let sel = selectable_spec(final (self).entries@, final (self).filtered_indices@);
                if sel.len() > 0 {
                    Some(sel[0])
                } else {
                    None::<usize>
                }
            },
            old(self).filter@.len() > 0 ==> headers_have_visible_devices(
                final (self).entries@,
                final (self).filtered_indices@,
            ),
    {
        let q = lowercase(self.filter.as_str());
        let n = self.entries.len();
        let mut vis: Vec<usize> = Vec::new();
        let mut i: usize = 0;
        while i < n
            invariant
                n == self.entries@.len(),
                0 <= i <= n,
                q@ == lower_of(self.filter@),
                visible_spec(self.entries@, q@) == vis@ + visible_from(
                    self.entries@,
                    q@,
                    i as int,
                ),
                forall|k: int| 0 <= k < vis@.len() ==> (#[trigger] vis@[k]) < n,
            decreases n - i,
        {
            let keep = if self.entries[i].is_header() {
                self.section_has_match(i, q.as_str())
            } else {
                if q.unicode_len() == 0 {
                    true
                } else {
                    let name_lower = lowercase(self.entries[i].display_name());
                    contains_str(name_lower.as_str(), q.as_str())
                }
            };
            if keep {
                vis.push(i);
            }
            i = i + 1;
        }
        self.filtered_indices = vis;
        let m = self.filtered_indices.len();
        let mut p: usize = 0;
        while p < m && self.entries[self.filtered_indices[p]].is_header()
            invariant
                m == self.filtered_indices@.len(),
                0 <= p <= m,
                forall|k: int|
                    0 <= k < m ==> (#[trigger] self.filtered_indices@[k]) < self.entries@.len(),
                selectable_spec(self.entries@, self.filtered_indices@) == selectable_from(
                    self.entries@,
                    self.filtered_indices@,
                    p as int,
                ),
            decreases m - p,
        {
            p = p + 1;
        }
        if p < m {
            proof {
                let sel = selectable_spec(self.entries@, self.filtered_indices@);
                assert(sel == seq![p as usize] + selectable_from(
                    self.entries@,
                    self.filtered_indices@,
                    p as int + 1,
                ));
                assert(sel[0] == p as usize);
            }
            self.cursor = Some(p);
        } else {
            self.cursor = None;
        }
        proof {
            if self.filter@.len() > 0 {
                lemma_visible_headers_have_devices(self.entries@, q@);
            }
        }
    }

    /// Build the selection state over the given entries: an empty filter,
    /// every entry visible, and the cursor on the first device entry.
    pub fn new(entries: Vec<EmulatorEntry>) -> (r: App)
        ensures
            r.wf(),
            r.entries == entries,
            r.filter@ == Seq::<char>::empty(),
            r.filtered_indices@ == visible_spec(entries@, lower_of(Seq::<char>::empty())),
            r.cursor == {
                let sel = selectable_spec(r.entries@, r.filtered_indices@);
                if sel.len() > 0 {
                    Some(sel[0])
                } else {
                    None::<usize>
                }
            },
    {
        let mut r = App { entries, filter: String::new(), filtered_indices: Vec::new(), cursor: None };
        r.apply_filter();
        r
    }

    /// Append one character to the filter and recompute.
    pub fn append_filter_char(&mut self, c: char)
        ensures
            final (self).wf(),
            final (self).entries == old(self).entries,
            final (self).filter@ == old(self).filter@.push(c),
            final (self).filtered_indices@ == visible_spec(
                old(self).entries@,
                lower_of(old(self).filter@.push(c)),
            ),
            final (self).cursor == {
                let sel = selectable_spec(final (self).entries@, final (self).filtered_indices@);
                if sel.len() > 0 {
                    Some(sel[0])
                } else {
                    None::<usize>
                }
            },
            headers_have_visible_devices(final (self).entries@, final (self).filtered_indices@),
    {
        push_char(&mut self.filter, c);
        self.apply_filter();
    }

    /// Remove the last filter character (keeping an empty filter empty)
    /// and recompute.
    pub fn remove_filter_char(&mut self)
        ensures
            final (self).wf(),
            final (self).entries == old(self).entries,
            final (self).filter@ == (if old(self).filter@.len() > 0 {
                old(self).filter@.drop_last()
            } else {
                old(self).filter@
            }),
            final (self).filtered_indices@ == visible_spec(
                old(self).entries@,
                lower_of(final (self).filter@),
            ),
            final (self).cursor == {
                let sel = selectable_spec(final (self).entries@, final (self).filtered_indices@);
                if sel.len() > 0 {
                    Some(sel[0])
                } else {
                    None::<usize>
                }
            },
            final (self).filter@.len() > 0 ==> headers_have_visible_devices(
                final (self).entries@,
                final (self).filtered_indices@,
            ),
    {
        let fl = self.filter.unicode_len();
        if fl > 0 {
            let shorter = self.filter.as_str().substring_char(0, fl - 1).to_owned();
            proof {
                assert(shorter@ =~= self.filter@.drop_last());
            }
            self.filter = shorter;
        }
        self.apply_filter();
    }

    /// Move the cursor by one step among the selectable positions, without
    /// wrapping: down clamps to the last selectable position, up to the
    /// first; with nothing selectable the cursor becomes undefined.
    pub fn move_selection(&mut self, delta: i32)
        ensures
            final (self).entries == old(self).entries,
            final (self).filter == old(self).filter,
            final (self).filtered_indices == old(self).filtered_indices,
            ({
                let sel = selectable_spec(old(self).entries@, old(self).filtered_indices@);
                if sel.len() == 0 {
                    final (self).cursor is None
                } else {
                    {
                        let cur = match old(self).cursor {
                            Some(c) => c,
                            None => 0,
                        };
                        let raw = find_pos(sel, cur) as int;
                        let cur_pos: int = if raw == sel.len() {
                            0
                        } else {
                            raw
                        };
                        let new_pos: int = if delta > 0 {
                            if cur_pos + 1 < sel.len() {
                                cur_pos + 1
                            } else {
                                sel.len() - 1
                            }
                        } else {
                            if cur_pos > 0 {
                                cur_pos - 1
                            } else {
                                0
                            }
                        };
                        final (self).cursor == Some(sel[new_pos])
                    }
                }
            }),
            old(self).wf() ==> final (self).wf(),
    {
        let ghost selg = selectable_spec(self.entries@, self.filtered_indices@);
        let m = self.filtered_indices.len();
        let mut sel: Vec<usize> = Vec::new();
        let mut p: usize = 0;
        while p < m
            invariant
                m == self.filtered_indices@.len(),
                0 <= p <= m,
                selg == selectable_spec(self.entries@, self.filtered_indices@),
                selg == sel@ + selectable_from(self.entries@, self.filtered_indices@, p as int),
                forall|k: int| 0 <= k < sel@.len() ==> (#[trigger] sel@[k]) < m,
                forall|k: int|
                    0 <= k < sel@.len() ==> (#[trigger] sel@[k]) < self.filtered_indices@.len()
                        && self.filtered_indices@[sel@[k] as int] < self.entries@.len() && !(self.entries@[self.filtered_indices@[sel@[k] as int] as int] is SectionHeader),
            decreases m - p,
        {
            let idx = self.filtered_indices[p];
            if idx < self.entries.len() && !self.entries[idx].is_header() {
                sel.push(p);
            }
            p = p + 1;
        }
        if sel.len() == 0 {
            self.cursor = None;
            return;
        }
        let cur = match self.cursor {
            Some(c) => c,
            None => 0,
        };
        let sl = sel.len();
        let mut k: usize = 0;
        while k < sl && sel[k] != cur
            invariant
                sl == sel@.len(),
                0 <= k <= sl,
                forall|t: int| 0 <= t < k ==> sel@[t] != cur,
            decreases sl - k,
        {
            k = k + 1;
        }
        proof {
            lemma_find_pos_is(sel@, cur, k as int);
        }
        let cur_pos: usize = if k == sl {
            0
        } else {
            k
        };
        let new_pos: usize = if delta > 0 {
            if cur_pos + 1 < sl {
                cur_pos + 1
            } else {
                sl - 1
            }
        } else {
            if cur_pos > 0 {
                cur_pos - 1
            } else {
                0
            }
        };
        self.cursor = Some(sel[new_pos]);
    }

    /// The entry under the cursor, when the cursor rests on a device
    /// entry of the visible list.
    pub fn selected_entry(&self) -> (r: Option<&EmulatorEntry>)
        ensures
            match self.cursor {
                None => r is None,
                Some(c) => {
                    if c < self.filtered_indices@.len() && (self.filtered_indices@[c as int] as int)
                        < self.entries@.len() && !(self.entries@[self.filtered_indices@[c as int] as int] is SectionHeader) {
                        r == Some(&self.entries[self.filtered_indices@[c as int] as int])
                    } else {
                        r is None
                    }
                },
            },
    {
        match self.cursor {
            None => None,
            Some(c) => {
                if c < self.filtered_indices.len() {
                    let idx = self.filtered_indices[c];
                    if idx < self.entries.len() && !self.entries[idx].is_header() {
                        Some(&self.entries[idx])
                    } else {
                        None
                    }
                } else {
                    None
                }
            },
        }
    }
}

proof fn lemma_find_pos_is(sel: Seq<usize>, x: usize, j: int)
    requires
        0 <= j <= sel.len(),
        forall|t: int| 0 <= t < j ==> sel[t] != x,
        j < sel.len() ==> sel[j] == x,
    ensures
        find_pos(sel, x) == j,
    decreases j,
{
    if j > 0 {
        let t = sel.drop_first();
        assert(forall|k: int| 0 <= k < j - 1 ==> t[k] == sel[k + 1] && sel[k + 1] != x);
        assert(j - 1 < t.len() ==> t[j - 1] == sel[j as int]);
        lemma_find_pos_is(t, x, j - 1);
    }
}

/// Appending a filter character and then removing the last one restores
/// the prior filter text exactly, and with it the visible indices: the
/// visible set is a function of the entries and the filter alone.
pub proof fn lemma_append_remove_roundtrip(s: App, c: char)
    requires
        s.wf(),
    ensures
        s.filter@.push(c).drop_last() == s.filter@,
        visible_spec(s.entries@, lower_of(s.filter@.push(c).drop_last())) == s.filtered_indices@,
{
    assert(s.filter@.push(c).drop_last() =~= s.filter@);
}

/// Every visible section header has, unless the filter is empty, at least
/// one visible device between it and the next header: a matching device
/// in its own section.
pub proof fn lemma_visible_header_has_device(entries: Seq<EmulatorEntry>, q: Seq<char>, h: int)
    requires
        0 <= h < entries.len(),
        entries[h] is SectionHeader,
        q.len() > 0,
        entry_visible(entries, h, q),
    ensures
        exists|j: int|
            h < j < entries.len() && !((#[trigger] entries[j]) is SectionHeader) && entry_visible(
                entries,
                j,
                q,
            ) && (forall|k: int| h < k < j ==> !((#[trigger] entries[k]) is SectionHeader)),
{
    let j = choose|j: int|
        h < j < entries.len() && !((#[trigger] entries[j]) is SectionHeader) && (forall|k: int|
            h < k < j ==> !((#[trigger] entries[k]) is SectionHeader)) && contains_seq(
            lower_of(entry_name(entries[j])),
            q,
        );
    assert(entry_visible(entries, j, q));
}

/// A defined cursor never indexes a section header: the well-formedness
/// invariant that every transition of the controller preserves.
pub proof fn lemma_cursor_never_header(s: App)
    requires
        s.wf(),
        s.cursor is Some,
    ensures
        s.cursor.unwrap() < s.filtered_indices@.len(),
        !(s.entries@[s.filtered_indices@[s.cursor.unwrap() as int] as int] is SectionHeader),
{
}

} // verus!
