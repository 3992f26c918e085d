//! Host grouping by derived name prefix: hosts whose names differ only in
//! a trailing number share a group, and the groups are rebuilt whenever
//! the host list changes.

use vstd::prelude::*;

use crate::server::{Server, ServerGroup};
use crate::text::{chars_vec, lex_le, lex_lt, str_eq, str_le, string_from_chars, subvec};

verus! {

/// An ASCII decimal digit.
pub open spec fn is_digit(c: char) -> bool {
    '0' <= c && c <= '9'
}

/// How many characters of the maximal trailing digit run `s` has.
pub open spec fn trailing_digits(s: Seq<char>) -> int
    decreases s.len(),
{
    if s.len() == 0 || !is_digit(s.last()) {
        0
    } else {
        1 + trailing_digits(s.drop_last())
    }
}

pub proof fn lemma_trailing_digits(s: Seq<char>, k: int)
    requires
        0 <= k <= s.len(),
        forall|j: int| s.len() - k <= j < s.len() ==> is_digit(#[trigger] s[j]),
        k == s.len() || !is_digit(s[s.len() - k - 1]),
    ensures
        trailing_digits(s) == k,
    decreases k,
{
    if k > 0 {
        assert(is_digit(s.last()));
        lemma_trailing_digits(s.drop_last(), k - 1);
    }
}

/// The group a host name derives: the name with its maximal trailing
/// number stripped, then one separating `'-'` or `'_'` stripped if one
/// remains; a name without a trailing number groups as itself, and at
/// least one leading character always survives.
pub open spec fn derive_group_spec(s: Seq<char>) -> Seq<char> {
    let k = trailing_digits(s);
    if k == 0 {
        s
    } else if k == s.len() {
        s.take(1)
    } else {
        let c = s.len() - k;
        if (s[c - 1] == '-' || s[c - 1] == '_') && c >= 2 {
            s.take(c - 1)
        } else {
            s.take(c)
        }
    }
}

/// Derives a host's group name from its display name.
pub fn derive_group(host: &str) -> (r: String)
    ensures
        r@ == derive_group_spec(host@),
{
    let v = chars_vec(host);
    let n = v.len();
    let mut k: usize = 0;
    while k < n && v[n - k - 1] >= '0' && v[n - k - 1] <= '9'
        invariant
            0 <= k <= n,
            n == v@.len(),
            v@ == host@,
            forall|j: int| n - k <= j < n ==> is_digit(#[trigger] v@[j]),
        decreases n - k,
    {
        k = k + 1;
    }
    proof {
        lemma_trailing_digits(host@, k as int);
    }
    if k == 0 {
        let r = string_from_chars(&v);
        return r;
    }
    if k == n {
        let r1 = subvec(&v, 0, 1);
        proof {
            assert(r1@ =~= host@.take(1));
        }
        return string_from_chars(&r1);
    }
    let c = n - k;
    let cut = if (v[c - 1] == '-' || v[c - 1] == '_') && c >= 2 {
        c - 1
    } else {
        c
    };
    let rv = subvec(&v, 0, cut);
    proof {
        assert(rv@ =~= host@.take(cut as int));
    }
    string_from_chars(&rv)
}

/// Assigns every host its derived group name, leaving everything else
/// about the host untouched.
pub fn group_servers(servers: &mut Vec<Server>)
    ensures
        final(servers)@.len() == old(servers)@.len(),
        forall|i: int|
            0 <= i < old(servers)@.len() ==> {
                let n = #[trigger] final(servers)@[i];
                let o = old(servers)@[i];
                &&& n.host == o.host
                &&& n.hostname == o.hostname
                &&& n.user == o.user
                &&& n.port == o.port
                &&& n.identity_file == o.identity_file
                &&& n.latency == o.latency
                &&& n.status == o.status
                &&& n.metrics == o.metrics
                &&& n.last_check == o.last_check
                &&& n.group is Some
                &&& n.group->0@ == derive_group_spec(o.host@)
            },
{
    let mut i: usize = 0;
    while i < servers.len()
        invariant
            0 <= i <= servers@.len(),
            servers@.len() == old(servers)@.len(),
            forall|j: int| i <= j < servers@.len() ==> (#[trigger] servers@[j]) == old(servers)@[j],
            forall|j: int|
                0 <= j < i ==> {
                    let n = #[trigger] servers@[j];
                    let o = old(servers)@[j];
                    &&& n.host == o.host
                    &&& n.hostname == o.hostname
                    &&& n.user == o.user
                    &&& n.port == o.port
                    &&& n.identity_file == o.identity_file
                    &&& n.latency == o.latency
                    &&& n.status == o.status
                    &&& n.metrics == o.metrics
                    &&& n.last_check == o.last_check
                    &&& n.group is Some
                    &&& n.group->0@ == derive_group_spec(o.host@)
                },
        decreases servers@.len() - i,
    {
        let ghost vpre = servers@;
        let g = derive_group(servers[i].host.as_str());
        let mut s = servers.remove(i);
        s.group = Some(g);
        proof {
            vpre.remove_ensures(i as int);
            vpre.remove(i as int).insert_ensures(i as int, s);
        }
        servers.insert(i, s);
        proof {
            assert forall|j: int|
                0 <= j < servers@.len() && j != i implies (#[trigger] servers@[j]) == vpre[j] by {
                if j < i {
                    assert(vpre.remove(i as int)[j] == vpre[j]);
                    assert(servers@[j] == vpre.remove(i as int)[j]);
                } else {
                    assert(servers@[j] == vpre.remove(i as int)[j - 1]);
                    assert(vpre.remove(i as int)[j - 1] == vpre[j]);
                }
            }
            assert(servers@[i as int] == s);
        }
        i = i + 1;
    }
}

/// The ascending indices of the hosts whose group name is `name`.
pub open spec fn group_indices(servers: Seq<Server>, name: Seq<char>) -> Seq<int>
    decreases servers.len(),
{
    if servers.len() == 0 {
        Seq::empty()
    } else {
        let pre = group_indices(servers.drop_last(), name);
        if servers.last().group is Some && servers.last().group->0@ == name {
            pre.push(servers.len() - 1)
        } else {
            pre
        }
    }
}

/// Every host of the first `i` that names a group has a matching entry
/// in the group list.
pub open spec fn groups_complete(s: Seq<Server>, i: int, r: Seq<ServerGroup>) -> bool {
    forall|j: int|
        0 <= j < i && (#[trigger] s[j].group) is Some ==> exists|a: int|
            0 <= a < r.len() && (#[trigger] r[a]).name@ == s[j].group->0@
}

/// Every entry of the group list is named after some host's group.
pub open spec fn groups_sound(s: Seq<Server>, r: Seq<ServerGroup>) -> bool {
    forall|a: int|
        #![trigger r[a]]
        0 <= a < r.len() ==> exists|j: int|
            0 <= j < s.len() && (#[trigger] s[j].group) is Some && s[j].group->0@ == r[a].name@
}

/// Builds the group list from the hosts: one group per distinct group
/// name, holding the ascending indices of its members, with the groups
/// sorted by name; hosts without a group name belong to none.
#[verifier::rlimit(100)]
pub fn build_groups(servers: &Vec<Server>) -> (r: Vec<ServerGroup>)
    ensures
        forall|a: int, b: int|
            0 <= a < b < r@.len() ==> lex_lt((#[trigger] r@[a]).name@, (#[trigger] r@[b]).name@),
        forall|a: int|
            0 <= a < r@.len() ==> (#[trigger] r@[a]).servers@.map_values(|u: usize| u as int)
                == group_indices(servers@, r@[a].name@),
        groups_complete(servers@, servers@.len() as int, r@),
        groups_sound(servers@, r@),
{
    let ghost s = servers@;
    let mut r: Vec<ServerGroup> = Vec::new();
    let mut i: usize = 0;
    while i < servers.len()
        invariant
            0 <= i <= s.len(),
            s == servers@,
            forall|a: int, b: int|
                0 <= a < b < r@.len() ==> lex_lt(
                    (#[trigger] r@[a]).name@,
                    (#[trigger] r@[b]).name@,
                ),
            forall|a: int|
                0 <= a < r@.len() ==> (#[trigger] r@[a]).servers@.map_values(|u: usize| u as int)
                    == group_indices(s.take(i as int), r@[a].name@),
            groups_complete(s, i as int, r@),
            groups_sound(s, r@),
        decreases s.len() - i,
    {
        proof {
            assert(s.take(i + 1).drop_last() =~= s.take(i as int));
            assert(s.take(i + 1).last() == s[i as int]);
        }
        let has_group = match &servers[i].group {
            Some(_) => true,
            None => false,
        };
        if has_group {
            let name = match &servers[i].group {
                Some(g) => g.clone(),
                None => String::new(),
            };
            let ghost rpre = r@;
            // find the group, or where it belongs in name order
            let mut pos: usize = 0;
            let mut found = false;
            while pos < r.len() && !found
                invariant
                    0 <= pos <= r@.len(),
                    r@ == rpre,
                    name@ == s[i as int].group->0@,
                    forall|a: int, b: int|
                        0 <= a < b < r@.len() ==> lex_lt(
                            (#[trigger] r@[a]).name@,
                            (#[trigger] r@[b]).name@,
                        ),
                    !found ==> forall|a: int|
                        0 <= a < pos ==> lex_lt((#[trigger] r@[a]).name@, name@),
                    found ==> pos < r@.len() && r@[pos as int].name@ == name@,
                ensures
                    0 <= pos <= r@.len(),
                    r@ == rpre,
                    found ==> pos < r@.len() && r@[pos as int].name@ == name@,
                    !found ==> (forall|a: int|
                        0 <= a < pos ==> lex_lt((#[trigger] r@[a]).name@, name@)),
                    !found ==> (pos == r@.len() || (lex_le(name@, r@[pos as int].name@) && name@
                        != r@[pos as int].name@)),
                decreases r@.len() - pos, (if found { 0int } else { 1int }),
            {
                if str_eq(r[pos].name.as_str(), name.as_str()) {
                    found = true;
                } else if str_le(r[pos].name.as_str(), name.as_str()) {
                    proof {
                        assert(lex_lt(r@[pos as int].name@, name@));
                    }
                    pos = pos + 1;
                } else {
                    proof {
                        crate::text::lemma_lex_le_total(r@[pos as int].name@, name@);
                        assert(lex_le(name@, r@[pos as int].name@) && name@ != r@[pos as int].name@);
                    }
                    break ;
                }
            }
            proof {
                if !found {
                    assert forall|a: int|
                        pos <= a < r@.len() implies lex_lt(name@, (#[trigger] r@[a]).name@) by {
                        if a > pos as int {
                            assert(lex_lt(r@[pos as int].name@, r@[a].name@));
                            crate::text::lemma_lex_le_trans(
                                name@,
                                r@[pos as int].name@,
                                r@[a].name@,
                            );
                            if name@ == r@[a].name@ {
                                crate::text::lemma_lex_le_antisym(name@, r@[pos as int].name@);
                            }
                        }
                    }
                }
            }
            if found {
                // extend the existing group with this index
                let mut g = r.remove(pos);
                g.servers.push(i);
                proof {
                    rpre.remove_ensures(pos as int);
                }
                r.insert(pos, g);
                proof {
                    assert(r@ =~= rpre.update(
                        pos as int,
                        (ServerGroup { name: g.name, servers: g.servers }),
                    ));
                    assert(g.name@ == name@);
                    assert(g.servers@.map_values(|u: usize| u as int) =~= rpre[pos as int].servers@.map_values(
                        |u: usize| u as int,
                    ).push(i as int));
                }
            } else {
                // start a new group at its sorted position
                let mut g = ServerGroup::new(name);
                g.servers.push(i);
                proof {
                    rpre.insert_ensures(pos as int, g);
                    assert(g.servers@.map_values(|u: usize| u as int) =~= Seq::<int>::empty().push(
                        i as int,
                    ));
                }
                r.insert(pos, g);
            }
            proof {
                step_groups_proof(s, i as int, rpre, r@, pos as int, found);
            }
        }
        i = i + 1;
    }
    proof {
        assert(s.take(i as int) =~= s);
    }
    r
}

/// Re-establishes the `build_groups` loop facts after one host has been
/// folded in at position `pos` of the group list.
proof fn step_groups_proof(
    s: Seq<Server>,
    i: int,
    rpre: Seq<ServerGroup>,
    rpost: Seq<ServerGroup>,
    pos: int,
    found: bool,
)
    requires
        0 <= i < s.len(),
        s[i].group is Some,
        0 <= pos,
        found ==> pos < rpre.len() && rpost.len() == rpre.len(),
        !found ==> pos <= rpre.len() && rpost.len() == rpre.len() + 1,
        // shape of the updated list
        found ==> forall|a: int| 0 <= a < rpre.len() && a != pos ==> rpost[a] == rpre[a],
        found ==> rpost[pos].name@ == rpre[pos].name@,
        !found ==> (forall|a: int| 0 <= a < pos ==> #[trigger] rpost[a] == rpre[a]),
        !found ==> (forall|a: int| pos < a < rpost.len() ==> #[trigger] rpost[a] == rpre[a - 1]),
        // the touched entry now carries this host's group and indices
        pos < rpost.len(),
        rpost[pos].name@ == s[i].group->0@,
        rpost[pos].servers@.map_values(|u: usize| u as int) == (if found {
            rpre[pos].servers@.map_values(|u: usize| u as int).push(i)
        } else {
            Seq::<int>::empty().push(i)
        }),
        // incoming invariants
        forall|a: int, b: int|
            0 <= a < b < rpre.len() ==> lex_lt((#[trigger] rpre[a]).name@, (#[trigger] rpre[b]).name@),
        forall|a: int|
            0 <= a < rpre.len() ==> (#[trigger] rpre[a]).servers@.map_values(|u: usize| u as int)
                == group_indices(s.take(i), rpre[a].name@),
        groups_complete(s, i, rpre),
        groups_sound(s, rpre),
        // where the entry went
        found ==> rpre[pos].name@ == s[i].group->0@,
        !found ==> (forall|a: int| 0 <= a < pos ==> lex_lt((#[trigger] rpre[a]).name@, s[i].group->0@)),
        !found ==> (forall|a: int|
            pos <= a < rpre.len() ==> lex_lt(s[i].group->0@, (#[trigger] rpre[a]).name@)),
    ensures
        forall|a: int, b: int|
            0 <= a < b < rpost.len() ==> lex_lt(
                (#[trigger] rpost[a]).name@,
                (#[trigger] rpost[b]).name@,
            ),
        forall|a: int|
            0 <= a < rpost.len() ==> (#[trigger] rpost[a]).servers@.map_values(|u: usize| u as int)
                == group_indices(s.take(i + 1), rpost[a].name@),
        groups_complete(s, i + 1, rpost),
        groups_sound(s, rpost),
{
    let name = s[i].group->0@;
    assert(s.take(i + 1).drop_last() =~= s.take(i));
    assert(s.take(i + 1).last() == s[i]);
    // distinct names: every other entry's name differs from this host's
    assert forall|a: int| 0 <= a < rpre.len() && rpre[a].name@ != name implies group_indices(
        s.take(i + 1),
        rpre[a].name@,
    ) == group_indices(s.take(i), rpre[a].name@) by {}
    assert(group_indices(s.take(i + 1), name) == group_indices(s.take(i), name).push(i));
    if found {
        assert forall|a: int, b: int|
            0 <= a < b < rpost.len() implies lex_lt(
            (#[trigger] rpost[a]).name@,
            (#[trigger] rpost[b]).name@,
        ) by {
            assert(rpost[a].name@ == rpre[a].name@);
            assert(rpost[b].name@ == rpre[b].name@);
        }
        assert forall|a: int|
            0 <= a < rpost.len() implies (#[trigger] rpost[a]).servers@.map_values(
            |u: usize| u as int,
        ) == group_indices(s.take(i + 1), rpost[a].name@) by {
            if a != pos {
                assert(rpost[a] == rpre[a]);
                assert(rpre[a].name@ != name) by {
                    if a < pos {
                        assert(lex_lt(rpre[a].name@, rpre[pos].name@));
                    } else {
                        assert(lex_lt(rpre[pos].name@, rpre[a].name@));
                    }
                }
            } else {
                assert(rpost[pos].servers@.map_values(|u: usize| u as int) == group_indices(
                    s.take(i),
                    name,
                ).push(i));
            }
        }
        assert forall|j: int|
            0 <= j < i + 1 && (#[trigger] s[j].group) is Some implies exists|a: int|
            0 <= a < rpost.len() && (#[trigger] rpost[a]).name@ == s[j].group->0@ by {
            if j < i {
                let a = choose|a: int|
                    0 <= a < rpre.len() && (#[trigger] rpre[a]).name@ == s[j].group->0@;
                if a != pos {
                    assert(rpost[a].name@ == s[j].group->0@);
                } else {
                    assert(rpost[pos].name@ == s[j].group->0@);
                }
            } else {
                assert(rpost[pos].name@ == name);
            }
        }
        assert forall|a: int|
            #![trigger rpost[a]]
            0 <= a < rpost.len() implies exists|j: int|
            0 <= j < s.len() && (#[trigger] s[j].group) is Some && s[j].group->0@
                == rpost[a].name@ by {
            if a != pos {
                let j = choose|j: int|
                    0 <= j < s.len() && (#[trigger] s[j].group) is Some && s[j].group->0@
                        == rpre[a].name@;
                assert(0 <= j < s.len() && s[j].group is Some && s[j].group->0@ == rpost[a].name@);
            } else {
                assert(s[i].group is Some && s[i].group->0@ == rpost[pos].name@);
            }
        }
    } else {
        assert forall|a: int, b: int|
            0 <= a < b < rpost.len() implies lex_lt(
            (#[trigger] rpost[a]).name@,
            (#[trigger] rpost[b]).name@,
        ) by {
            if b < pos {
                assert(rpost[a] == rpre[a] && rpost[b] == rpre[b]);
            } else if a > pos {
                assert(rpost[a] == rpre[a - 1] && rpost[b] == rpre[b - 1]);
            } else if a == pos {
                assert(rpost[b] == rpre[b - 1]);
                assert(lex_lt(name, rpre[b - 1].name@));
            } else if b == pos {
                assert(rpost[a] == rpre[a]);
                assert(lex_lt(rpre[a].name@, name));
            } else {
                assert(rpost[a] == rpre[a] && rpost[b] == rpre[b - 1]);
                assert(lex_lt(rpre[a].name@, name));
                assert(lex_lt(name, rpre[b - 1].name@));
                crate::text::lemma_lex_le_trans(rpre[a].name@, name, rpre[b - 1].name@);
                if rpre[a].name@ == rpre[b - 1].name@ {
                    crate::text::lemma_lex_le_antisym(rpre[a].name@, name);
                }
            }
        }
        assert forall|a: int|
            0 <= a < rpost.len() implies (#[trigger] rpost[a]).servers@.map_values(
            |u: usize| u as int,
        ) == group_indices(s.take(i + 1), rpost[a].name@) by {
            if a < pos {
                assert(rpost[a] == rpre[a]);
                assert(lex_lt(rpre[a].name@, name));
                assert(rpre[a].name@ != name);
            } else if a > pos {
                assert(rpost[a] == rpre[a - 1]);
                assert(lex_lt(name, rpre[a - 1].name@));
                assert(rpre[a - 1].name@ != name);
            } else {
                assert forall|j: int|
                    0 <= j < s.take(i).len() implies !((#[trigger] s.take(i)[j].group) is Some
                    && s.take(i)[j].group->0@ == name) by {
                    if s.take(i)[j].group is Some && s.take(i)[j].group->0@ == name {
                        assert(s[j].group is Some && s[j].group->0@ == name);
                        let a2 = choose|a2: int|
                            0 <= a2 < rpre.len() && (#[trigger] rpre[a2]).name@ == s[j].group->0@;
                        if a2 < pos {
                            assert(lex_lt(rpre[a2].name@, name));
                        } else {
                            assert(lex_lt(name, rpre[a2].name@));
                        }
                        assert(false);
                    }
                }
                lemma_group_indices_none(s.take(i), name);
            }
        }
        assert forall|j: int|
            0 <= j < i + 1 && (#[trigger] s[j].group) is Some implies exists|a: int|
            0 <= a < rpost.len() && (#[trigger] rpost[a]).name@ == s[j].group->0@ by {
            if j < i {
                let a = choose|a: int|
                    0 <= a < rpre.len() && (#[trigger] rpre[a]).name@ == s[j].group->0@;
                if a < pos {
                    assert(rpost[a].name@ == s[j].group->0@);
                } else {
                    assert(rpost[a + 1].name@ == s[j].group->0@);
                }
            } else {
                assert(rpost[pos].name@ == name);
            }
        }
        assert forall|a: int|
            #![trigger rpost[a]]
            0 <= a < rpost.len() implies exists|j: int|
            0 <= j < s.len() && (#[trigger] s[j].group) is Some && s[j].group->0@
                == rpost[a].name@ by {
            if a == pos {
                assert(s[i].group is Some && s[i].group->0@ == rpost[pos].name@);
            } else {
                let a0 = if a < pos {
                    a
                } else {
                    a - 1
                };
                let j = choose|j: int|
                    0 <= j < s.len() && (#[trigger] s[j].group) is Some && s[j].group->0@
                        == rpre[a0].name@;
                assert(0 <= j < s.len() && s[j].group is Some && s[j].group->0@ == rpost[a].name@);
            }
        }
    }
}

/// A name no host of `t` carries as its group has an empty index list.
proof fn lemma_group_indices_none(t: Seq<Server>, name: Seq<char>)
    requires
        forall|j: int|
            0 <= j < t.len() ==> !((#[trigger] t[j].group) is Some && t[j].group->0@ == name),
    ensures
        group_indices(t, name) == Seq::<int>::empty(),
    decreases t.len(),
{
    if t.len() > 0 {
        assert(!(t[t.len() - 1].group is Some && t[t.len() - 1].group->0@ == name));
        assert(forall|j: int|
            0 <= j < t.drop_last().len() ==> !((#[trigger] t.drop_last()[j].group) is Some
                && t.drop_last()[j].group->0@ == name));
        lemma_group_indices_none(t.drop_last(), name);
    }
}

} // verus!
