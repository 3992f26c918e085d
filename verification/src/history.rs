//! Connection history: per-host last-connection time and connect count, a
//! favorite set, and the persisted sort-order preference.
//!
//! Times are plain Unix-epoch seconds supplied by the caller; reading and
//! writing the backing file is the caller's job.

use vstd::prelude::*;
use vstd::pervasive::VecAdditionalExecFns;
use vstd::string::StringExecFns;

use crate::text::{dec_str, str_eq, u64_to_string};

verus! {

/// One host's connection record.
#[derive(Debug)]
pub struct HistoryEntry {
    pub host: String,
    /// Unix-epoch seconds of the last connection.
    pub last_connected: i64,
    pub connect_count: u32,
}

impl Clone for HistoryEntry {
    fn clone(&self) -> (r: Self)
        ensures
            r == *self,
    {
        HistoryEntry {
            host: self.host.clone(),
            last_connected: self.last_connected,
            connect_count: self.connect_count,
        }
    }
}

/// Connection history and preferences.
#[derive(Debug)]
pub struct History {
    pub entries: Vec<HistoryEntry>,
    pub favorites: Vec<String>,
    pub sort_order: String,
}

impl Clone for History {
    fn clone(&self) -> (r: Self)
        ensures
            r.entries@ == self.entries@,
            r.favorites@ == self.favorites@,
            r.sort_order == self.sort_order,
    {
        let mut entries: Vec<HistoryEntry> = Vec::new();
        let mut i: usize = 0;
        while i < self.entries.len()
            invariant
                0 <= i <= self.entries@.len(),
                entries@ == self.entries@.take(i as int),
            decreases self.entries@.len() - i,
        {
            entries.push(self.entries[i].clone());
            assert(entries@ =~= self.entries@.take(i + 1));
            i = i + 1;
        }
        let mut favorites: Vec<String> = Vec::new();
        let mut j: usize = 0;
        while j < self.favorites.len()
            invariant
                0 <= j <= self.favorites@.len(),
                favorites@ == self.favorites@.take(j as int),
            decreases self.favorites@.len() - j,
        {
            favorites.push(self.favorites[j].clone());
            assert(favorites@ =~= self.favorites@.take(j + 1));
            j = j + 1;
        }
        proof {
            assert(entries@ =~= self.entries@);
            assert(favorites@ =~= self.favorites@);
        }
        History { entries, favorites, sort_order: self.sort_order.clone() }
    }
}

impl Default for History {
    fn default() -> (r: Self)
        ensures
            r.wf(),
            r.entries@ == Seq::<HistoryEntry>::empty(),
            r.favorites@ == Seq::<String>::empty(),
            r.sort_order@ == Seq::<char>::empty(),
    {
        History::new()
    }
}

/// The history records `host`.
pub open spec fn has_entry(h: History, host: Seq<char>) -> bool {
    exists|i: int| 0 <= i < h.entries@.len() && #[trigger] h.entries@[i].host@ == host
}

/// The record for `host`; meaningful only where `has_entry` holds.
pub open spec fn entry_of(h: History, host: Seq<char>) -> HistoryEntry {
    h.entries@[choose|i: int| 0 <= i < h.entries@.len() && #[trigger] h.entries@[i].host@ == host]
}

/// `host` is marked as a favorite.
pub open spec fn is_fav(h: History, host: Seq<char>) -> bool {
    exists|i: int| 0 <= i < h.favorites@.len() && #[trigger] h.favorites@[i]@ == host
}

impl History {
    /// Host names are unique in the record list and in the favorite set.
    pub open spec fn wf(&self) -> bool {
        &&& forall|i: int, j: int|
            0 <= i < j < self.entries@.len() ==> (#[trigger] self.entries@[i].host@)
                != (#[trigger] self.entries@[j].host@)
        &&& forall|i: int, j: int|
            0 <= i < j < self.favorites@.len() ==> (#[trigger] self.favorites@[i]@)
                != (#[trigger] self.favorites@[j]@)
    }

    /// An empty history.
    pub fn new() -> (r: Self)
        ensures
            r.wf(),
            r.entries@ == Seq::<HistoryEntry>::empty(),
            r.favorites@ == Seq::<String>::empty(),
            r.sort_order@ == Seq::<char>::empty(),
    {
        History { entries: Vec::new(), favorites: Vec::new(), sort_order: String::new() }
    }

    /// Records a connection to `host` at time `now`: the last-connected
    /// time becomes `now` and the count grows by one (saturating), with a
    /// fresh record started at count 1 for an unknown host.
    pub fn record_connection(&mut self, host: &str, now: i64)
        requires
            old(self).wf(),
        ensures
            final(self).wf(),
            final(self).favorites@ == old(self).favorites@,
            final(self).sort_order == old(self).sort_order,
            has_entry(*final(self), host@),
            entry_of(*final(self), host@).last_connected == now,
            !has_entry(*old(self), host@) ==> entry_of(*final(self), host@).connect_count == 1,
            has_entry(*old(self), host@) ==> entry_of(*final(self), host@).connect_count == (
            if entry_of(*old(self), host@).connect_count < u32::MAX {
                entry_of(*old(self), host@).connect_count + 1
            } else {
                u32::MAX as int
            }),
            forall|s: Seq<char>|
                s != host@ ==> (#[trigger] has_entry(*final(self), s)) == has_entry(*old(self), s),
            forall|s: Seq<char>|
                s != host@ && has_entry(*old(self), s) ==> (#[trigger] entry_of(*final(self), s))
                    == entry_of(*old(self), s),
    {
        let ghost hpre = *self;
        let mut i: usize = 0;
        while i < self.entries.len()
            invariant
                0 <= i <= self.entries@.len(),
                hpre == *old(self),
                hpre.wf(),
                *self == hpre,
                forall|j: int| 0 <= j < i ==> (#[trigger] self.entries@[j].host@) != host@,
            decreases self.entries@.len() - i,
        {
            if str_eq(self.entries[i].host.as_str(), host) {
                let count = self.entries[i].connect_count;
                let new_count = if count < u32::MAX {
                    count + 1
                } else {
                    u32::MAX
                };
                let hostc = self.entries[i].host.clone();
                let updated = HistoryEntry {
                    host: hostc,
                    last_connected: now,
                    connect_count: new_count,
                };
                self.entries.set(i, updated);
                proof {
                    assert forall|p: int|
                        0 <= p < self.entries@.len() implies (#[trigger] self.entries@[p].host@)
                        == hpre.entries@[p].host@ by {
                        if p != i as int {
                            assert(self.entries@[p] == hpre.entries@[p]);
                        }
                    }
                    assert(hpre.entries@[i as int].host@ == host@);
                    assert forall|p: int, q: int|
                        0 <= p < q < self.entries@.len() implies (
                    #[trigger] self.entries@[p].host@) != (#[trigger] self.entries@[q].host@) by {
                        assert(hpre.entries@[p].host@ != hpre.entries@[q].host@);
                    }
                    assert forall|s: Seq<char>| s != host@ implies (#[trigger] has_entry(
                        *self,
                        s,
                    )) == has_entry(hpre, s) by {
                        if has_entry(hpre, s) {
                            let j = choose|j: int|
                                0 <= j < hpre.entries@.len() && #[trigger] hpre.entries@[j].host@
                                    == s;
                            assert(self.entries@[j].host@ == s);
                        }
                        if has_entry(*self, s) {
                            let j = choose|j: int|
                                0 <= j < self.entries@.len() && #[trigger] self.entries@[j].host@
                                    == s;
                            assert(hpre.entries@[j].host@ == s);
                        }
                    }
                    assert forall|s: Seq<char>| s != host@ && has_entry(hpre, s) implies (
                    #[trigger] entry_of(*self, s)) == entry_of(hpre, s) by {
                        assert(has_entry(*self, s));
                        let j = choose|j: int|
                            0 <= j < self.entries@.len() && #[trigger] self.entries@[j].host@ == s;
                        let k = choose|k: int|
                            0 <= k < hpre.entries@.len() && #[trigger] hpre.entries@[k].host@ == s;
                        assert(hpre.entries@[j].host@ == s);
                        assert(self.entries@[k].host@ == s);
                        if j < k {
                            assert(hpre.entries@[j].host@ != hpre.entries@[k].host@);
                        }
                        if k < j {
                            assert(hpre.entries@[k].host@ != hpre.entries@[j].host@);
                        }
                        assert(j == k);
                        assert(j != i as int);
                        assert(self.entries@[j] == hpre.entries@[j]);
                    }
                    assert(has_entry(*self, host@)) by {
                        assert(self.entries@[i as int].host@ == host@);
                    }
                    let w = choose|w: int|
                        0 <= w < self.entries@.len() && #[trigger] self.entries@[w].host@ == host@;
                    assert(hpre.entries@[w].host@ == host@);
                    if w < i as int {
                        assert(hpre.entries@[w].host@ != hpre.entries@[i as int].host@);
                    }
                    if (i as int) < w {
                        assert(hpre.entries@[i as int].host@ != hpre.entries@[w].host@);
                    }
                    assert(w == i as int);
                }
                return ;
            }
            i = i + 1;
        }
        let entry = HistoryEntry { host: host.to_owned(), last_connected: now, connect_count: 1 };
        self.entries.push(entry);
        proof {
            assert(self.entries@[self.entries@.len() - 1].host@ == host@);
            assert(self.entries@.drop_last() =~= hpre.entries@);
            assert forall|s: Seq<char>| s != host@ implies (#[trigger] has_entry(*self, s))
                == has_entry(hpre, s) by {
                if has_entry(hpre, s) {
                    let j = choose|j: int|
                        0 <= j < hpre.entries@.len() && #[trigger] hpre.entries@[j].host@ == s;
                    assert(self.entries@[j].host@ == s);
                }
                if has_entry(*self, s) {
                    let j = choose|j: int|
                        0 <= j < self.entries@.len() && #[trigger] self.entries@[j].host@ == s;
                    assert(j < hpre.entries@.len());
                    assert(hpre.entries@[j].host@ == s);
                }
            }
            assert forall|s: Seq<char>| s != host@ && has_entry(hpre, s) implies (#[trigger] entry_of(
                *self,
                s,
            )) == entry_of(hpre, s) by {
                let j = choose|j: int|
                    0 <= j < self.entries@.len() && #[trigger] self.entries@[j].host@ == s;
                let k = choose|k: int|
                    0 <= k < hpre.entries@.len() && #[trigger] hpre.entries@[k].host@ == s;
                assert(self.entries@[k].host@ == s);
                assert(j == k);
            }
            let w = choose|w: int|
                0 <= w < self.entries@.len() && #[trigger] self.entries@[w].host@ == host@;
            assert(w == self.entries@.len() - 1);
        }
    }

    /// The last connection time recorded for `host`, if any.
    pub fn last_connected(&self, host: &str) -> (r: Option<i64>)
        requires
            self.wf(),
        ensures
            r == (if has_entry(*self, host@) {
                Some(entry_of(*self, host@).last_connected)
            } else {
                None::<i64>
            }),
    {
        let mut i: usize = 0;
        while i < self.entries.len()
            invariant
                0 <= i <= self.entries@.len(),
                self.wf(),
                forall|j: int| 0 <= j < i ==> (#[trigger] self.entries@[j].host@) != host@,
            decreases self.entries@.len() - i,
        {
            if str_eq(self.entries[i].host.as_str(), host) {
                proof {
                    assert(has_entry(*self, host@)) by {
                        assert(self.entries@[i as int].host@ == host@);
                    }
                    let w = choose|w: int|
                        0 <= w < self.entries@.len() && #[trigger] self.entries@[w].host@ == host@;
                    assert(w == i as int);
                }
                return Some(self.entries[i].last_connected);
            }
            i = i + 1;
        }
        None
    }

    /// How many connections have been recorded for `host`.
    pub fn connect_count(&self, host: &str) -> (r: u32)
        requires
            self.wf(),
        ensures
            r == (if has_entry(*self, host@) {
                entry_of(*self, host@).connect_count as int
            } else {
                0int
            }),
    {
        let mut i: usize = 0;
        while i < self.entries.len()
            invariant
                0 <= i <= self.entries@.len(),
                self.wf(),
                forall|j: int| 0 <= j < i ==> (#[trigger] self.entries@[j].host@) != host@,
            decreases self.entries@.len() - i,
        {
            if str_eq(self.entries[i].host.as_str(), host) {
                proof {
                    assert(has_entry(*self, host@)) by {
                        assert(self.entries@[i as int].host@ == host@);
                    }
                    let w = choose|w: int|
                        0 <= w < self.entries@.len() && #[trigger] self.entries@[w].host@ == host@;
                    assert(w == i as int);
                }
                return self.entries[i].connect_count;
            }
            i = i + 1;
        }
        0
    }

    /// Whether `host` is a favorite.
    pub fn is_favorite(&self, host: &str) -> (r: bool)
        ensures
            r == is_fav(*self, host@),
    {
        let mut i: usize = 0;
        while i < self.favorites.len()
            invariant
                0 <= i <= self.favorites@.len(),
                forall|j: int| 0 <= j < i ==> (#[trigger] self.favorites@[j]@) != host@,
            decreases self.favorites@.len() - i,
        {
            if str_eq(self.favorites[i].as_str(), host) {
                proof {
                    assert(self.favorites@[i as int]@ == host@);
                }
                return true;
            }
            i = i + 1;
        }
        false
    }

    /// Flips `host`'s favorite status, leaving every other host's alone.
    pub fn toggle_favorite(&mut self, host: &str)
        requires
            old(self).wf(),
        ensures
            final(self).wf(),
            final(self).entries@ == old(self).entries@,
            final(self).sort_order == old(self).sort_order,
            is_fav(*final(self), host@) == !is_fav(*old(self), host@),
            forall|s: Seq<char>|
                s != host@ ==> (#[trigger] is_fav(*final(self), s)) == is_fav(*old(self), s),
    {
        let ghost hpre = *self;
        let mut i: usize = 0;
        while i < self.favorites.len()
            invariant
                0 <= i <= self.favorites@.len(),
                hpre == *old(self),
                hpre.wf(),
                *self == hpre,
                forall|j: int| 0 <= j < i ==> (#[trigger] self.favorites@[j]@) != host@,
            decreases self.favorites@.len() - i,
        {
            if str_eq(self.favorites[i].as_str(), host) {
                proof {
                    assert(hpre.favorites@[i as int]@ == host@);
                }
                self.favorites.remove(i);
                proof {
                    hpre.favorites@.remove_ensures(i as int);
                    assert(self.favorites@ == hpre.favorites@.remove(i as int));
                    assert forall|p: int|
                        0 <= p < i implies (#[trigger] self.favorites@[p]) == hpre.favorites@[p] by {
                        assert(hpre.favorites@.remove(i as int)[p] == hpre.favorites@[p]);
                    }
                    assert forall|p: int|
                        i <= p < self.favorites@.len() implies (#[trigger] self.favorites@[p])
                        == hpre.favorites@[p + 1] by {
                        assert(hpre.favorites@.remove(i as int)[p] == hpre.favorites@[p + 1]);
                    }
                    assert forall|s: Seq<char>| s != host@ implies (#[trigger] is_fav(*self, s))
                        == is_fav(hpre, s) by {
                        if is_fav(hpre, s) {
                            let j = choose|j: int|
                                0 <= j < hpre.favorites@.len() && #[trigger] hpre.favorites@[j]@
                                    == s;
                            if j < i as int {
                                assert(self.favorites@[j]@ == s);
                            } else {
                                assert(j != i as int);
                                assert(self.favorites@[j - 1]@ == s);
                            }
                        }
                        if is_fav(*self, s) {
                            let j = choose|j: int|
                                0 <= j < self.favorites@.len() && #[trigger] self.favorites@[j]@
                                    == s;
                            if j < i as int {
                                assert(hpre.favorites@[j]@ == s);
                            } else {
                                assert(hpre.favorites@[j + 1]@ == s);
                            }
                        }
                    }
                    assert(!is_fav(*self, host@)) by {
                        if is_fav(*self, host@) {
                            let j = choose|j: int|
                                0 <= j < self.favorites@.len() && #[trigger] self.favorites@[j]@
                                    == host@;
                            if j < i as int {
                                assert(hpre.favorites@[j]@ == host@);
                                assert(false);
                            } else {
                                assert(hpre.favorites@[j + 1]@ == host@);
                                assert(hpre.favorites@[i as int]@ != hpre.favorites@[j + 1]@);
                                assert(false);
                            }
                        }
                    }
                    assert forall|p: int, q: int|
                        0 <= p < q < self.favorites@.len() implies (#[trigger] self.favorites@[p]@)
                        != (#[trigger] self.favorites@[q]@) by {
                        if q < i as int {
                            assert(hpre.favorites@[p]@ != hpre.favorites@[q]@);
                        } else if p < i as int {
                            assert(hpre.favorites@[p]@ != hpre.favorites@[q + 1]@);
                        } else {
                            assert(hpre.favorites@[p + 1]@ != hpre.favorites@[q + 1]@);
                        }
                    }
                }
                return ;
            }
            i = i + 1;
        }
        proof {
            assert(!is_fav(hpre, host@));
        }
        self.favorites.push(host.to_owned());
        proof {
            assert(self.favorites@.drop_last() =~= hpre.favorites@);
            assert(self.favorites@[self.favorites@.len() - 1]@ == host@);
            assert forall|s: Seq<char>| s != host@ implies (#[trigger] is_fav(*self, s)) == is_fav(
                hpre,
                s,
            ) by {
                if is_fav(hpre, s) {
                    let j = choose|j: int|
                        0 <= j < hpre.favorites@.len() && #[trigger] hpre.favorites@[j]@ == s;
                    assert(self.favorites@[j]@ == s);
                }
                if is_fav(*self, s) {
                    let j = choose|j: int|
                        0 <= j < self.favorites@.len() && #[trigger] self.favorites@[j]@ == s;
                    assert(j < hpre.favorites@.len());
                    assert(hpre.favorites@[j]@ == s);
                }
            }
        }
    }

    /// Stores the sort-order tag to persist.
    pub fn set_sort_order(&mut self, order: &str)
        ensures
            final(self).sort_order@ == order@,
            final(self).entries@ == old(self).entries@,
            final(self).favorites@ == old(self).favorites@,
    {
        self.sort_order = order.to_owned();
    }

    /// The persisted sort-order tag.
    pub fn get_sort_order(&self) -> (r: &str)
        ensures
            r@ == self.sort_order@,
    {
        self.sort_order.as_str()
    }
}

/// The relative-age wording for a connection `delta` seconds in the past:
/// under a minute reads "just now", then minutes, hours, days and weeks,
/// and at four weeks or more the caller-formatted `fallback` date.
pub open spec fn fmt_age_spec(delta: int, fallback: Seq<char>) -> Seq<char> {
    if delta < 60 {
        "just now"@
    } else if delta < 3600 {
        dec_str(delta / 60) + "m ago"@
    } else if delta < 86400 {
        dec_str(delta / 3600) + "h ago"@
    } else if delta / 86400 < 7 {
        dec_str(delta / 86400) + "d ago"@
    } else if delta / 604800 < 4 {
        dec_str(delta / 604800) + "w ago"@
    } else {
        fallback
    }
}

impl History {
    /// Renders how long ago `host` was last connected to, relative to
    /// `now` (Unix-epoch seconds); `fallback` is the caller-rendered
    /// calendar date used at four weeks and beyond, and an unknown host
    /// reads "-".
    pub fn format_last_connected(&self, host: &str, now: i64, fallback: &str) -> (r: String)
        requires
            self.wf(),
        ensures
            !has_entry(*self, host@) ==> r@ == "-"@,
            has_entry(*self, host@) ==> r@ == fmt_age_spec(
                now - entry_of(*self, host@).last_connected,
                fallback@,
            ),
    {
        match self.last_connected(host) {
            None => "-".to_owned(),
            Some(last) => {
                let d: i128 = (now as i128) - (last as i128);
                if d < 60 {
                    "just now".to_owned()
                } else if d < 3600 {
                    u64_to_string((d / 60) as u64).concat("m ago")
                } else if d < 86400 {
                    u64_to_string((d / 3600) as u64).concat("h ago")
                } else if d / 86400 < 7 {
                    u64_to_string((d / 86400) as u64).concat("d ago")
                } else if d / 604800 < 4 {
                    u64_to_string((d / 604800) as u64).concat("w ago")
                } else {
                    fallback.to_owned()
                }
            },
        }
    }
}

} // verus!
