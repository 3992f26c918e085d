//! The sort comparators of the host list and a verified sort: each order
//! is a total preorder, and sorting permutes the hosts into pairwise
//! order under it.

use vstd::prelude::*;
use vstd::multiset::Multiset;
use vstd::seq_lib::group_to_multiset_ensures;

use crate::app::SortOrder;
use crate::history::{entry_of, has_entry, is_fav, History};
use crate::server::{ram_pct_spec, Server};
use crate::text::{
    lemma_lex_le_antisym, lemma_lex_le_total, lemma_lex_le_trans, lex_le, str_le,
};

verus! {

/// The last connection time the history gives a host, if any.
pub open spec fn last_time(h: History, host: Seq<char>) -> Option<i64> {
    if has_entry(h, host) {
        Some(entry_of(h, host).last_connected)
    } else {
        None
    }
}

/// The latency sort key; a host never measured sorts as the maximum.
pub open spec fn lat_key(s: Server) -> int {
    match s.latency {
        Some(l) => l as int,
        None => u64::MAX as int,
    }
}

/// The CPU sort key; a host without metrics sorts as the maximum.
pub open spec fn cpu_key(s: Server) -> int {
    match s.metrics {
        Some(m) => m.cpu_usage as int,
        None => u64::MAX as int,
    }
}

/// The RAM-percentage sort key; a host without metrics sorts as the
/// maximum.
pub open spec fn ram_key(s: Server) -> int {
    match s.metrics {
        Some(m) => ram_pct_spec(m.ram_used, m.ram_total),
        None => u64::MAX as int,
    }
}

/// A host's group name is missing or empty; such hosts sort last under
/// the group order.
pub open spec fn group_empty(s: Server) -> bool {
    match s.group {
        Some(g) => g@.len() == 0,
        None => true,
    }
}

/// "a sorts at or before b" under the given order, with the tie-breaks of
/// each order: names ascending for favorites, recency and groups; missing
/// measurements always last for latency, CPU and RAM.
pub open spec fn server_le(order: SortOrder, h: History, a: Server, b: Server) -> bool {
    match order {
        SortOrder::Name => lex_le(a.host@, b.host@),
        SortOrder::Favorites => {
            let fa = is_fav(h, a.host@);
            let fb = is_fav(h, b.host@);
            if fa != fb {
                fa
            } else {
                lex_le(a.host@, b.host@)
            }
        },
        SortOrder::RecentlyUsed => {
            match (last_time(h, a.host@), last_time(h, b.host@)) {
                (Some(x), Some(y)) => x >= y,
                (Some(_), None) => true,
                (None, Some(_)) => false,
                (None, None) => lex_le(a.host@, b.host@),
            }
        },
        SortOrder::Latency => lat_key(a) <= lat_key(b),
        SortOrder::CpuUsage => cpu_key(a) <= cpu_key(b),
        SortOrder::RamUsage => ram_key(a) <= ram_key(b),
        SortOrder::Group => {
            let ea = group_empty(a);
            let eb = group_empty(b);
            if ea != eb {
                eb
            } else if ea {
                lex_le(a.host@, b.host@)
            } else if a.group->0@ != b.group->0@ {
                lex_le(a.group->0@, b.group->0@)
            } else {
                lex_le(a.host@, b.host@)
            }
        },
    }
}

/// Any two hosts are comparable under every order.
pub proof fn lemma_server_le_total(order: SortOrder, h: History, a: Server, b: Server)
    ensures
        server_le(order, h, a, b) || server_le(order, h, b, a),
{
    lemma_lex_le_total(a.host@, b.host@);
    if order == SortOrder::Group && !group_empty(a) && !group_empty(b) {
        lemma_lex_le_total(a.group->0@, b.group->0@);
    }
}

/// Every order is transitive.
pub proof fn lemma_server_le_trans(order: SortOrder, h: History, a: Server, b: Server, c: Server)
    requires
        server_le(order, h, a, b),
        server_le(order, h, b, c),
    ensures
        server_le(order, h, a, c),
{
    match order {
        SortOrder::Name => {
            lemma_lex_le_trans(a.host@, b.host@, c.host@);
        },
        SortOrder::Favorites => {
            if is_fav(h, a.host@) == is_fav(h, b.host@) && is_fav(h, b.host@) == is_fav(
                h,
                c.host@,
            ) {
                lemma_lex_le_trans(a.host@, b.host@, c.host@);
            }
        },
        SortOrder::RecentlyUsed => {
            if last_time(h, a.host@) is None && last_time(h, b.host@) is None && last_time(
                h,
                c.host@,
            ) is None {
                lemma_lex_le_trans(a.host@, b.host@, c.host@);
            }
        },
        SortOrder::Latency => {
        },
        SortOrder::CpuUsage => {
        },
        SortOrder::RamUsage => {
        },
        SortOrder::Group => {
            let ea = group_empty(a);
            let eb = group_empty(b);
            let ec = group_empty(c);
            if ea && eb && ec {
                lemma_lex_le_trans(a.host@, b.host@, c.host@);
            } else if !ea && !eb && !ec {
                let ga = a.group->0@;
                let gb = b.group->0@;
                let gc = c.group->0@;
                if ga != gb && gb != gc {
                    lemma_lex_le_trans(ga, gb, gc);
                    if ga == gc {
                        lemma_lex_le_antisym(ga, gb);
                        assert(false);
                    }
                } else if ga == gb && gb != gc {
                    assert(lex_le(ga, gc) && ga != gc);
                } else if ga != gb && gb == gc {
                    assert(lex_le(ga, gc) && ga != gc);
                } else {
                    lemma_lex_le_trans(a.host@, b.host@, c.host@);
                }
            }
        },
    }
}

/// Compares two hosts under the given order, against the history's
/// favorite and recency data.
pub fn server_le_exec(order: SortOrder, h: &History, a: &Server, b: &Server) -> (r: bool)
    requires
        h.wf(),
    ensures
        r == server_le(order, *h, *a, *b),
{
    match order {
        SortOrder::Name => str_le(a.host.as_str(), b.host.as_str()),
        SortOrder::Favorites => {
            let fa = h.is_favorite(a.host.as_str());
            let fb = h.is_favorite(b.host.as_str());
            if fa != fb {
                fa
            } else {
                str_le(a.host.as_str(), b.host.as_str())
            }
        },
        SortOrder::RecentlyUsed => {
            let ta = h.last_connected(a.host.as_str());
            let tb = h.last_connected(b.host.as_str());
            match (ta, tb) {
                (Some(x), Some(y)) => x >= y,
                (Some(_), None) => true,
                (None, Some(_)) => false,
                (None, None) => str_le(a.host.as_str(), b.host.as_str()),
            }
        },
        SortOrder::Latency => {
            let la = match a.latency {
                Some(l) => l,
                None => u64::MAX,
            };
            let lb = match b.latency {
                Some(l) => l,
                None => u64::MAX,
            };
            la <= lb
        },
        SortOrder::CpuUsage => {
            let ca = match &a.metrics {
                Some(m) => m.cpu_usage,
                None => u64::MAX,
            };
            let cb = match &b.metrics {
                Some(m) => m.cpu_usage,
                None => u64::MAX,
            };
            ca <= cb
        },
        SortOrder::RamUsage => {
            let ra = match &a.metrics {
                Some(m) => m.ram_usage_percent(),
                None => u64::MAX,
            };
            let rb = match &b.metrics {
                Some(m) => m.ram_usage_percent(),
                None => u64::MAX,
            };
            ra <= rb
        },
        SortOrder::Group => {
            let ea = match &a.group {
                Some(g) => g.as_str().is_empty(),
                None => true,
            };
            let eb = match &b.group {
                Some(g) => g.as_str().is_empty(),
                None => true,
            };
            if ea != eb {
                eb
            } else if ea {
                str_le(a.host.as_str(), b.host.as_str())
            } else {
                let ga = match &a.group {
                    Some(g) => g.as_str(),
                    None => "",
                };
                let gb = match &b.group {
                    Some(g) => g.as_str(),
                    None => "",
                };
                if !crate::text::str_eq(ga, gb) {
                    str_le(ga, gb)
                } else {
                    str_le(a.host.as_str(), b.host.as_str())
                }
            }
        },
    }
}

/// The hosts stand pairwise in order.
pub open spec fn sorted_spec(s: Seq<Server>, order: SortOrder, h: History) -> bool {
    forall|i: int, j: int| 0 <= i < j < s.len() ==> server_le(order, h, s[i], s[j])
}

/// Sorts the host list in place under the given order: afterwards the
/// hosts stand pairwise in order, and they are exactly the hosts that
/// were there before.
pub fn sort_servers_by(servers: &mut Vec<Server>, order: SortOrder, history: &History)
    requires
        history.wf(),
    ensures
        sorted_spec(final(servers)@, order, *history),
        final(servers)@.to_multiset() == old(servers)@.to_multiset(),
{
    broadcast use group_to_multiset_ensures;

    let mut out: Vec<Server> = Vec::new();
    proof {
        assert(out@.to_multiset().add(servers@.to_multiset()) =~= old(servers)@.to_multiset());
    }
    while servers.len() > 0
        invariant
            history.wf(),
            out@.to_multiset().add(servers@.to_multiset()) == old(servers)@.to_multiset(),
            sorted_spec(out@, order, *history),
            forall|x: int, y: int|
                0 <= x < out@.len() && 0 <= y < servers@.len() ==> server_le(
                    order,
                    *history,
                    #[trigger] out@[x],
                    #[trigger] servers@[y],
                ),
        decreases servers@.len(),
    {
        // find a minimal element of what is left
        let mut m: usize = 0;
        let mut k: usize = 1;
        proof {
            lemma_server_le_total(order, *history, servers@[0], servers@[0]);
        }
        while k < servers.len()
            invariant
                history.wf(),
                0 <= m < k <= servers@.len(),
                servers@.len() > 0,
                forall|j: int|
                    0 <= j < k ==> server_le(order, *history, servers@[m as int], #[trigger] servers@[j]),
            decreases servers@.len() - k,
        {
            if !server_le_exec(order, history, &servers[m], &servers[k]) {
                proof {
                    lemma_server_le_total(order, *history, servers@[m as int], servers@[k as int]);
                    assert forall|j: int|
                        0 <= j < k + 1 implies server_le(
                        order,
                        *history,
                        servers@[k as int],
                        #[trigger] servers@[j],
                    ) by {
                        if j < k {
                            lemma_server_le_trans(
                                order,
                                *history,
                                servers@[k as int],
                                servers@[m as int],
                                servers@[j],
                            );
                        } else {
                            lemma_server_le_total(
                                order,
                                *history,
                                servers@[k as int],
                                servers@[k as int],
                            );
                        }
                    }
                }
                m = k;
            } else {
                proof {
                    assert(server_le(order, *history, servers@[m as int], servers@[k as int]));
                }
            }
            k = k + 1;
        }
        let ghost spre = servers@;
        let ghost opre = out@;
        let e = servers.remove(m);
        proof {
            spre.remove_ensures(m as int);
            assert(e == spre[m as int]);
            assert(servers@ == spre.remove(m as int));
            spre.to_multiset_ensures();
            assert(spre.remove(m as int).to_multiset() =~= spre.to_multiset().remove(
                spre[m as int],
            ));
            assert(servers@.to_multiset() =~= spre.to_multiset().remove(e));
        }
        out.push(e);
        proof {
            opre.to_multiset_ensures();
            assert(out@.to_multiset() =~= opre.to_multiset().insert(e));
            assert(out@.to_multiset().add(servers@.to_multiset()) =~= opre.to_multiset().add(
                spre.to_multiset(),
            ));
            // the appended element follows everything already placed
            assert forall|x: int, y: int|
                0 <= x < out@.len() && 0 <= y < servers@.len() implies server_le(
                order,
                *history,
                #[trigger] out@[x],
                #[trigger] servers@[y],
            ) by {
                let z = if y < m as int {
                    y
                } else {
                    y + 1
                };
                assert(servers@[y] == spre[z]);
                if x < opre.len() {
                    assert(out@[x] == opre[x]);
                    assert(server_le(order, *history, opre[x], spre[z]));
                } else {
                    assert(out@[x] == e);
                    assert(server_le(order, *history, e, spre[z]));
                }
            }
            assert forall|i: int, j: int|
                0 <= i < j < out@.len() implies server_le(
                order,
                *history,
                #[trigger] out@[i],
                #[trigger] out@[j],
            ) by {
                if j < opre.len() {
                    assert(out@[i] == opre[i] && out@[j] == opre[j]);
                } else {
                    assert(out@[i] == opre[i] && out@[j] == e);
                    assert(server_le(order, *history, opre[i], spre[m as int]));
                }
            }
        }
    }
    proof {
        servers@.to_multiset_ensures();
        vstd::multiset::lemma_multiset_empty_len(servers@.to_multiset());
        assert(servers@.to_multiset() =~= Multiset::<Server>::empty());
        assert(out@.to_multiset().add(servers@.to_multiset()) =~= out@.to_multiset());
    }
    let done = out;
    *servers = done;
}

/// Favorites-first law: in a list sorted under the favorites order, every
/// favorite host stands before every non-favorite, and hosts of equal
/// favorite status stand with display names ascending.
pub proof fn lemma_favorites_sort(s: Seq<Server>, h: History)
    requires
        sorted_spec(s, SortOrder::Favorites, h),
    ensures
        forall|i: int, j: int|
            0 <= i < j < s.len() && is_fav(h, (#[trigger] s[j]).host@) ==> is_fav(
                h,
                (#[trigger] s[i]).host@,
            ),
        forall|i: int, j: int|
            0 <= i < j < s.len() && is_fav(h, (#[trigger] s[i]).host@) == is_fav(
                h,
                (#[trigger] s[j]).host@,
            ) ==> lex_le(s[i].host@, s[j].host@),
{
    assert forall|i: int, j: int|
        0 <= i < j < s.len() && is_fav(h, (#[trigger] s[j]).host@) implies is_fav(
        h,
        (#[trigger] s[i]).host@,
    ) by {
        assert(server_le(SortOrder::Favorites, h, s[i], s[j]));
    }
    assert forall|i: int, j: int|
        0 <= i < j < s.len() && is_fav(h, (#[trigger] s[i]).host@) == is_fav(
        h,
        (#[trigger] s[j]).host@,
    ) implies lex_le(s[i].host@, s[j].host@) by {
        assert(server_le(SortOrder::Favorites, h, s[i], s[j]));
    }
}

} // verus!
