//! Validator topology: which validators can reach each other through their
//! declared peers, and whether the online part of the network is split.
//!
//! The online percentage and the phase derived from it compare floating
//! point values and are computed by the caller from the counts here.

use vstd::prelude::*;
use crate::text::{owned, append, u64_to_string, decimal, str_eq};
use crate::compliance::{str_lt, strictly_sorted, tally_add, tally_keys, tallies, views, lemma_str_lt_irreflexive,
    lemma_str_lt_transitive, lemma_str_lt_trichotomy};

verus! {

/// A validator and the peers it declares.
#[derive(Clone, Debug, PartialEq, Eq)]
pub struct TopologyValidator {
    pub name: String,
    pub peers: Vec<String>,
}

/// A validator as (name, declared peers).
pub type ValidatorView = (Seq<char>, Seq<Seq<char>>);

/// The validators as (name, peers).
pub open spec fn validator_views(vs: Seq<TopologyValidator>) -> Seq<ValidatorView> {
    vs.map_values(|v: TopologyValidator| (v.name@, v.peers@.map_values(|p: String| p@)))
}

/// The names of the validators, in order (with repetitions).
pub open spec fn names_of(vs: Seq<ValidatorView>) -> Seq<Seq<char>> {
    vs.map_values(|v: ValidatorView| v.0)
}

/// Whether some validator named `a` declares `b` as a peer.
pub open spec fn declares(vs: Seq<ValidatorView>, a: Seq<char>, b: Seq<char>) -> bool {
    exists|k: int, l: int| 0 <= k < vs.len() && 0 <= l < vs[k].1.len() && vs[k].0 == a && #[trigger] vs[k].1[l] == b
}

/// Whether two declared validators are directly connected: one declares the
/// other as a peer (a validator is never its own peer).
pub open spec fn linked(vs: Seq<ValidatorView>, a: Seq<char>, b: Seq<char>) -> bool {
    a != b && (declares(vs, a, b) || declares(vs, b, a))
}

/// The distinct validator names, in increasing order.
fn sorted_names(validators: &[TopologyValidator]) -> (r: Vec<String>)
    ensures
        strictly_sorted(r@.map_values(|s: String| s@)),
        r@.map_values(|s: String| s@).to_set() == names_of(validator_views(validators@)).to_set(),
{
    let ghost all = names_of(validator_views(validators@));
    let mut t: Vec<(String, usize)> = Vec::new();
    let mut i: usize = 0;
    proof {
        assert(tally_keys(t@).to_set() =~= all.take(0).to_set());
    }
    while i < validators.len()
        invariant
            i <= validators.len(),
            all == names_of(validator_views(validators@)),
            tallies(t@, all.take(i as int)),
        decreases validators.len() - i,
    {
        assert(all.take(i + 1) =~= all.take(i as int).push(validators@[i as int].name@));
        tally_add(&mut t, validators[i].name.as_str(), Ghost(all.take(i as int)));
        i += 1;
    }
    assert(all.take(validators.len() as int) =~= all);
    let mut r: Vec<String> = Vec::new();
    let mut j: usize = 0;
    while j < t.len()
        invariant
            j <= t.len(),
            r@.map_values(|s: String| s@) == tally_keys(t@).take(j as int),
        decreases t.len() - j,
    {
        let s = owned(t[j].0.as_str());
        let ghost before = r@;
        r.push(s);
        j += 1;
        assert(r@.map_values(|x: String| x@) =~= before.map_values(|x: String| x@).push(s@));
        assert(tally_keys(t@).take(j as int) =~= tally_keys(t@).take(j - 1).push(tally_keys(t@)[j - 1]));
    }
    assert(tally_keys(t@).take(t.len() as int) =~= tally_keys(t@));
    r
}

/// The position of `s` in `names`, if present.
fn position(names: &Vec<String>, s: &str) -> (r: Option<usize>)
    ensures
        match r {
            Some(i) => i < names@.len() && names@[i as int]@ == s@,
            None => forall|i: int| 0 <= i < names@.len() ==> names@[i]@ != s@,
        },
{
    let mut i: usize = 0;
    while i < names.len()
        invariant
            i <= names.len(),
            forall|k: int| 0 <= k < i ==> names@[k]@ != s@,
        decreases names.len() - i,
    {
        if str_eq(names[i].as_str(), s) {
            return Some(i);
        }
        i += 1;
    }
    None
}

/// An `n` by `n` matrix of `false`.
fn no_edges(n: usize) -> (r: Vec<Vec<bool>>)
    ensures
        r@.len() == n,
        forall|i: int| 0 <= i < n ==> #[trigger] r@[i]@.len() == n,
        forall|i: int, j: int| 0 <= i < n && 0 <= j < n ==> !r@[i]@[j],
{
    let mut m: Vec<Vec<bool>> = Vec::new();
    let mut i: usize = 0;
    while i < n
        invariant
            i <= n,
            m@.len() == i,
            forall|a: int| 0 <= a < i ==> #[trigger] m@[a]@.len() == n,
            forall|a: int, b: int| 0 <= a < i && 0 <= b < n ==> !m@[a]@[b],
        decreases n - i,
    {
        let mut row: Vec<bool> = Vec::new();
        let mut j: usize = 0;
        while j < n
            invariant
                j <= n,
                row@.len() == j,
                forall|b: int| 0 <= b < j ==> !row@[b],
            decreases n - j,
        {
            row.push(false);
            j += 1;
        }
        m.push(row);
        i += 1;
    }
    m
}

/// Sets both `m[a][b]` and `m[b][a]`.
fn set_edge(m: &mut Vec<Vec<bool>>, a: usize, b: usize, Ghost(n): Ghost<int>)
    requires
        old(m)@.len() == n,
        forall|i: int| 0 <= i < n ==> #[trigger] old(m)@[i]@.len() == n,
        a < n,
        b < n,
    ensures
        final(m)@.len() == n,
        forall|i: int| 0 <= i < n ==> #[trigger] final(m)@[i]@.len() == n,
        forall|i: int, j: int| 0 <= i < n && 0 <= j < n ==> final(m)@[i]@[j]
            == (old(m)@[i]@[j] || (i == a && j == b) || (i == b && j == a)),
{
    let mut row = m[a].clone();
    row.set(b, true);
    m.set(a, row);
    let mut row2 = m[b].clone();
    row2.set(a, true);
    m.set(b, row2);
}

/// Whether a validator among the first `k` (and, of validator `k`, among
/// its first `l` peers) named `a` declares `b`.
pub open spec fn declares_upto(vs: Seq<ValidatorView>, k: int, l: int, a: Seq<char>, b: Seq<char>) -> bool {
    exists|kk: int, ll: int| 0 <= kk < vs.len() && 0 <= ll < vs[kk].1.len() && (kk < k || (kk == k && ll < l))
        && vs[kk].0 == a && #[trigger] vs[kk].1[ll] == b
}

/// [`linked`] restricted to the declarations seen so far.
pub open spec fn linked_upto(vs: Seq<ValidatorView>, k: int, l: int, a: Seq<char>, b: Seq<char>) -> bool {
    a != b && (declares_upto(vs, k, l, a, b) || declares_upto(vs, k, l, b, a))
}

proof fn lemma_sorted_distinct(s: Seq<Seq<char>>, i: int, j: int)
    requires
        strictly_sorted(s),
        0 <= i < s.len(),
        0 <= j < s.len(),
        s[i] == s[j],
    ensures
        i == j,
{
    if i < j {
        assert(str_lt(s[i], s[j]));
        lemma_str_lt_irreflexive(s[i]);
    } else if j < i {
        assert(str_lt(s[j], s[i]));
        lemma_str_lt_irreflexive(s[i]);
    }
}

/// The adjacency matrix of the declared validators `names` (sorted,
/// distinct): `m[i][j]` when the two are linked.
fn adjacency(validators: &[TopologyValidator], names: &Vec<String>) -> (m: Vec<Vec<bool>>)
    requires
        strictly_sorted(views(names@)),
        views(names@).to_set() == names_of(validator_views(validators@)).to_set(),
    ensures
        m@.len() == names@.len(),
        forall|i: int| 0 <= i < names@.len() ==> #[trigger] m@[i]@.len() == names@.len(),
        forall|i: int, j: int| 0 <= i < names@.len() && 0 <= j < names@.len() ==>
            (m@[i]@[j] <==> linked(validator_views(validators@), names@[i]@, names@[j]@)),
{
    let n = names.len();
    let ghost vs = validator_views(validators@);
    let mut m = no_edges(n);
    let mut k: usize = 0;
    while k < validators.len()
        invariant
            k <= validators.len(),
            n == names@.len(),
            vs == validator_views(validators@),
            vs.len() == validators@.len(),
            strictly_sorted(views(names@)),
            views(names@).to_set() == names_of(vs).to_set(),
            m@.len() == n,
            forall|i: int| 0 <= i < n ==> #[trigger] m@[i]@.len() == n,
            forall|i: int, j: int| 0 <= i < n && 0 <= j < n ==>
                (m@[i]@[j] <==> linked_upto(vs, k as int, 0, names@[i]@, names@[j]@)),
        decreases validators.len() - k,
    {
        let v = &validators[k];
        let ghost vk = vs[k as int];
        proof {
            assert(vk.0 == v.name@);
            assert(vk.1 == v.peers@.map_values(|p: String| p@));
            assert(names_of(vs)[k as int] == v.name@);
            assert(names_of(vs).to_set().contains(v.name@));
            assert(views(names@).to_set().contains(v.name@));
        }
        match position(names, v.name.as_str()) {
            Some(a) => {
                let mut l: usize = 0;
                while l < v.peers.len()
                    invariant
                        k < validators.len(),
                        l <= v.peers.len(),
                        a < n,
                        names@[a as int]@ == v.name@,
                        n == names@.len(),
                        vs == validator_views(validators@),
                        vk == vs[k as int],
                        vk.0 == v.name@,
                        vk.1 == v.peers@.map_values(|p: String| p@),
                        strictly_sorted(views(names@)),
                        m@.len() == n,
                        forall|i: int| 0 <= i < n ==> #[trigger] m@[i]@.len() == n,
                        forall|i: int, j: int| 0 <= i < n && 0 <= j < n ==>
                            (m@[i]@[j] <==> linked_upto(vs, k as int, l as int, names@[i]@, names@[j]@)),
                    decreases v.peers.len() - l,
                {
                    let p = v.peers[l].as_str();
                    let ghost old_m = m@;
                    proof {
                        assert(vk.1[l as int] == p@);
                        assert forall|x: Seq<char>, y: Seq<char>|
                            #![trigger declares_upto(vs, k as int, l + 1, x, y)]
                            declares_upto(vs, k as int, l + 1, x, y)
                                == (declares_upto(vs, k as int, l as int, x, y) || (x == v.name@ && y == p@)) by {
                            if x == v.name@ && y == p@ {
                                assert(vs[k as int].1[l as int] == y);
                            }
                        }
                    }
                    if !str_eq(p, v.name.as_str()) {
                        match position(names, p) {
                            Some(b) => {
                                set_edge(&mut m, a, b, Ghost(n as int));
                                proof {
                                    assert forall|i: int, j: int| 0 <= i < n && 0 <= j < n implies
                                        (m@[i]@[j] <==> linked_upto(vs, k as int, l + 1, names@[i]@, names@[j]@)) by {
                                        if names@[i]@ == v.name@ {
                                            assert(views(names@)[i] == views(names@)[a as int]);
                                            lemma_sorted_distinct(views(names@), i, a as int);
                                        }
                                        if names@[j]@ == v.name@ {
                                            assert(views(names@)[j] == views(names@)[a as int]);
                                            lemma_sorted_distinct(views(names@), j, a as int);
                                        }
                                        if names@[i]@ == p@ {
                                            assert(views(names@)[i] == views(names@)[b as int]);
                                            lemma_sorted_distinct(views(names@), i, b as int);
                                        }
                                        if names@[j]@ == p@ {
                                            assert(views(names@)[j] == views(names@)[b as int]);
                                            lemma_sorted_distinct(views(names@), j, b as int);
                                        }
                                    }
                                }
                            },
                            None => {
                                proof {
                                    assert forall|i: int, j: int| 0 <= i < n && 0 <= j < n implies
                                        (m@[i]@[j] <==> linked_upto(vs, k as int, l + 1, names@[i]@, names@[j]@)) by {
                                        assert(names@[i]@ != p@ && names@[j]@ != p@);
                                    }
                                }
                            },
                        }
                    } else {
                        proof {
                            assert forall|i: int, j: int| 0 <= i < n && 0 <= j < n implies
                                (m@[i]@[j] <==> linked_upto(vs, k as int, l + 1, names@[i]@, names@[j]@)) by {
                            }
                        }
                    }
                    l += 1;
                }
                proof {
                    assert forall|x: Seq<char>, y: Seq<char>|
                        #![trigger declares_upto(vs, k + 1, 0, x, y)]
                        declares_upto(vs, k + 1, 0, x, y) == declares_upto(vs, k as int, v.peers.len() as int, x, y) by {
                        if declares_upto(vs, k + 1, 0, x, y) {
                            let (kk, ll) = choose|kk: int, ll: int| 0 <= kk < vs.len() && 0 <= ll < vs[kk].1.len()
                                && (kk < k + 1 || (kk == k + 1 && ll < 0)) && vs[kk].0 == x && #[trigger] vs[kk].1[ll] == y;
                            assert(declares_upto(vs, k as int, v.peers.len() as int, x, y));
                        }
                        if declares_upto(vs, k as int, v.peers.len() as int, x, y) {
                            let (kk, ll) = choose|kk: int, ll: int| 0 <= kk < vs.len() && 0 <= ll < vs[kk].1.len()
                                && (kk < k || (kk == k && ll < v.peers.len())) && vs[kk].0 == x && #[trigger] vs[kk].1[ll] == y;
                            assert(declares_upto(vs, k + 1, 0, x, y));
                        }
                    }
                }
            },
            None => {
                proof {
                    let w = choose|w: int| 0 <= w < views(names@).len() && #[trigger] views(names@)[w] == v.name@;
                    assert(names@[w]@ == v.name@);
                }
            },
        }
        k += 1;
    }
    proof {
        assert forall|x: Seq<char>, y: Seq<char>|
            #![trigger declares_upto(vs, vs.len() as int, 0, x, y)]
            declares_upto(vs, vs.len() as int, 0, x, y) == declares(vs, x, y) by {
            if declares(vs, x, y) {
                let (kk, ll) = choose|kk: int, ll: int| 0 <= kk < vs.len() && 0 <= ll < vs[kk].1.len() && vs[kk].0 == x && #[trigger] vs[kk].1[ll] == y;
                assert(declares_upto(vs, vs.len() as int, 0, x, y));
            }
        }
    }
    m
}

// ── Connected components ────────────────────────────────────────────────────

/// The adjacency matrix as sequences.
pub open spec fn adj_view(adj: Seq<Vec<bool>>) -> Seq<Seq<bool>> {
    adj.map_values(|r: Vec<bool>| r@)
}

/// The components as sequences of indices.
pub open spec fn comps_view(c: Seq<Vec<usize>>) -> Seq<Seq<usize>> {
    c.map_values(|v: Vec<usize>| v@)
}

/// A symmetric `n` by `n` matrix.
pub open spec fn symmetric(adj: Seq<Seq<bool>>, n: int) -> bool {
    &&& adj.len() == n
    &&& forall|i: int| 0 <= i < n ==> #[trigger] adj[i].len() == n
    &&& forall|i: int, j: int| 0 <= i < n && 0 <= j < n ==> adj[i][j] == adj[j][i]
}

/// `cs` partitions the nodes marked in `owner`: node `i` belongs to
/// component `owner[i]`, or to none when it is negative.
pub open spec fn owned_by(cs: Seq<Seq<usize>>, owner: Seq<int>, n: int) -> bool {
    &&& owner.len() == n
    &&& forall|k: int, t: int| 0 <= k < cs.len() && 0 <= t < cs[k].len() ==>
        (#[trigger] cs[k][t]) < n && owner[cs[k][t] as int] == k
    &&& forall|i: int| 0 <= i < n && #[trigger] owner[i] >= 0 ==> owner[i] < cs.len() && cs[owner[i]].contains(i as usize)
}

/// The number of `false` entries.
pub open spec fn unvisited(s: Seq<bool>) -> nat
    decreases s.len(),
{
    if s.len() == 0 {
        0
    } else {
        unvisited(s.drop_last()) + if s.last() { 0nat } else { 1nat }
    }
}

proof fn lemma_visit(s: Seq<bool>, i: int)
    requires
        0 <= i < s.len(),
        !s[i],
    ensures
        unvisited(s.update(i, true)) + 1 == unvisited(s),
    decreases s.len(),
{
    let u = s.update(i, true);
    if i == s.len() - 1 {
        assert(u.drop_last() =~= s.drop_last());
    } else {
        assert(u.drop_last() =~= s.drop_last().update(i, true));
        lemma_visit(s.drop_last(), i);
    }
}

/// Member `t` of `c` is adjacent to an earlier member.
pub open spec fn reached_earlier(adj: Seq<Seq<bool>>, c: Seq<usize>, t: int) -> bool {
    exists|s: int| 0 <= s < t && #[trigger] adj[c[s] as int][c[t] as int]
}

/// Every member of a component but the first is adjacent to an earlier one.
pub open spec fn grown(adj: Seq<Seq<bool>>, c: Seq<usize>) -> bool {
    forall|t: int| 0 < t < c.len() ==> #[trigger] reached_earlier(adj, c, t)
}

/// No online neighbour of the first `upto` members of component `k` lies
/// outside it.
pub open spec fn closed_upto(adj: Seq<Seq<bool>>, on: Seq<bool>, owner: Seq<int>, c: Seq<usize>, k: int, upto: int) -> bool {
    forall|t: int, j: int| 0 <= t < upto && 0 <= j < on.len() && on[j] && #[trigger] adj[c[t] as int][j] ==> owner[j] == k
}

/// The state of the search after finishing the components `cs`.
pub open spec fn search_state(adj: Seq<Seq<bool>>, on: Seq<bool>, cs: Seq<Seq<usize>>, owner: Seq<int>) -> bool {
    let n = on.len() as int;
    &&& symmetric(adj, n)
    &&& owned_by(cs, owner, n)
    &&& forall|i: int| 0 <= i < n && owner[i] >= 0 ==> on[i]
    &&& forall|k: int| 0 <= k < cs.len() ==> #[trigger] cs[k].len() > 0
    &&& forall|k: int| 0 <= k < cs.len() ==> grown(adj, #[trigger] cs[k])
    &&& forall|k: int| 0 <= k < cs.len() ==> closed_upto(adj, on, owner, #[trigger] cs[k], k, cs[k].len() as int)
    &&& forall|k: int, t: int| 0 <= k < cs.len() && 0 <= t < cs[k].len() ==> cs[k][0] <= #[trigger] cs[k][t]
    &&& forall|k1: int, k2: int| 0 <= k1 < k2 < cs.len() ==> #[trigger] cs[k1][0] < #[trigger] cs[k2][0]
}

/// The connected components of the online nodes of a symmetric graph,
/// each in the order the search reached its members, in increasing order
/// of their least member.
fn search_components(adj: &Vec<Vec<bool>>, on: &Vec<bool>) -> (r: Vec<Vec<usize>>)
    requires
        symmetric(adj_view(adj@), on@.len() as int),
    ensures
        exists|owner: Seq<int>| #[trigger] search_state(adj_view(adj@), on@, comps_view(r@), owner)
            && forall|i: int| 0 <= i < on@.len() ==> (on@[i] <==> owner[i] >= 0),
{
    let n = on.len();
    let ghost a = adj_view(adj@);
    let mut visited: Vec<bool> = Vec::new();
    let mut z: usize = 0;
    while z < n
        invariant
            z <= n,
            visited@.len() == z,
            forall|i: int| 0 <= i < z ==> !visited@[i],
        decreases n - z,
    {
        visited.push(false);
        z += 1;
    }
    let ghost mut owner: Seq<int> = Seq::new(n as nat, |i: int| -1int);
    let mut comps: Vec<Vec<usize>> = Vec::new();
    let mut start: usize = 0;
    while start < n
        invariant
            start <= n,
            n == on@.len(),
            a == adj_view(adj@),
            visited@.len() == n,
            search_state(a, on@, comps_view(comps@), owner),
            forall|i: int| 0 <= i < n ==> (visited@[i] <==> owner[i] >= 0),
            forall|i: int| 0 <= i < start && on@[i] ==> owner[i] >= 0,
            forall|k: int| 0 <= k < comps@.len() ==> (#[trigger] comps@[k]@)[0] < start,
        decreases n - start,
    {
        if on[start] && !visited[start] {
            let m = comps.len();
            let ghost cs = comps_view(comps@);
            let mut cur: Vec<usize> = Vec::new();
            cur.push(start);
            proof {
                lemma_visit(visited@, start as int);
            }
            visited.set(start, true);
            proof {
                assert forall|i: int| 0 <= i < n && #[trigger] owner[i] >= 0 implies owner[i] < m by {}
                owner = owner.update(start as int, m as int);
                assert(cur@[0] == start);
                assert forall|i: int| 0 <= i < n && owner[i] == m implies #[trigger] cur@.contains(i as usize) by {
                    if i != start {
                        assert(owner[i] >= 0);
                    }
                }
            }
            let mut head: usize = 0;
            while head < cur.len()
                invariant
                    n == on@.len(),
                    start < n,
                    on@[start as int],
                    a == adj_view(adj@),
                    symmetric(a, n as int),
                    m == comps@.len(),
                    cs == comps_view(comps@),
                    visited@.len() == n,
                    owner.len() == n,
                    head <= cur@.len(),
                    cur@.len() > 0,
                    cur@[0] == start,
                    forall|i: int| 0 <= i < n ==> (visited@[i] <==> owner[i] >= 0),
                    forall|i: int| 0 <= i < n && owner[i] >= 0 ==> on@[i],
                    forall|i: int| 0 <= i < n && owner[i] >= 0 ==> owner[i] <= m,
                    forall|t: int| 0 <= t < cur@.len() ==> (#[trigger] cur@[t]) < n && owner[cur@[t] as int] == m && start <= cur@[t],
                    forall|i: int| 0 <= i < n && owner[i] == m ==> #[trigger] cur@.contains(i as usize),
                    forall|k: int, t: int| 0 <= k < cs.len() && 0 <= t < cs[k].len() ==>
                        (#[trigger] cs[k][t]) < n && owner[cs[k][t] as int] == k,
                    forall|i: int| 0 <= i < n && 0 <= owner[i] < m ==> #[trigger] cs[owner[i]].contains(i as usize),
                    forall|k: int| 0 <= k < cs.len() ==> closed_upto(a, on@, owner, #[trigger] cs[k], k, cs[k].len() as int),
                    grown(a, cur@),
                    closed_upto(a, on@, owner, cur@, m as int, head as int),
                    forall|i: int| 0 <= i < start && on@[i] ==> 0 <= owner[i] < m,
                decreases unvisited(visited@) + cur@.len() - head,
            {
                let u = cur[head];
                let ghost budget = unvisited(visited@) + cur@.len();
                let mut j: usize = 0;
                while j < n
                    invariant
                        n == on@.len(),
                        start < n,
                        a == adj_view(adj@),
                        symmetric(a, n as int),
                        m == comps@.len(),
                        cs == comps_view(comps@),
                        visited@.len() == n,
                        owner.len() == n,
                        head < cur@.len(),
                        u == cur@[head as int],
                        j <= n,
                        cur@.len() > 0,
                        cur@[0] == start,
                        forall|i: int| 0 <= i < n ==> (visited@[i] <==> owner[i] >= 0),
                        forall|i: int| 0 <= i < n && owner[i] >= 0 ==> on@[i],
                        forall|i: int| 0 <= i < n && owner[i] >= 0 ==> owner[i] <= m,
                        forall|t: int| 0 <= t < cur@.len() ==> (#[trigger] cur@[t]) < n && owner[cur@[t] as int] == m && start <= cur@[t],
                        forall|i: int| 0 <= i < n && owner[i] == m ==> #[trigger] cur@.contains(i as usize),
                        forall|k: int, t: int| 0 <= k < cs.len() && 0 <= t < cs[k].len() ==>
                            (#[trigger] cs[k][t]) < n && owner[cs[k][t] as int] == k,
                        forall|i: int| 0 <= i < n && 0 <= owner[i] < m ==> #[trigger] cs[owner[i]].contains(i as usize),
                        forall|k: int| 0 <= k < cs.len() ==> closed_upto(a, on@, owner, #[trigger] cs[k], k, cs[k].len() as int),
                        grown(a, cur@),
                        closed_upto(a, on@, owner, cur@, m as int, head as int),
                        forall|jj: int| 0 <= jj < j && on@[jj] && #[trigger] a[u as int][jj] ==> owner[jj] == m,
                        unvisited(visited@) + cur@.len() == budget,
                        forall|i: int| 0 <= i < start && on@[i] ==> 0 <= owner[i] < m,
                    decreases n - j,
                {
                    proof {
                        assert(a[u as int] == adj@[u as int]@);
                    }
                    if adj[u][j] && on[j] && !visited[j] {
                        proof {
                            assert(a[u as int][j as int]);
                            if (j as int) < start {
                                assert(owner[j as int] >= 0);
                            }
                        }
                        let ghost old_cur = cur@;
                        cur.push(j);
                        proof {
                            lemma_visit(visited@, j as int);
                        }
                        visited.set(j, true);
                        proof {
                            owner = owner.update(j as int, m as int);
                            assert(cur@[cur@.len() - 1] == j);
                            assert forall|t: int| 0 < t < cur@.len() implies #[trigger] reached_earlier(a, cur@, t) by {
                                if t == cur@.len() - 1 {
                                    assert(a[cur@[head as int] as int][cur@[t] as int]);
                                } else {
                                    assert(old_cur[t] == cur@[t]);
                                    assert(reached_earlier(a, old_cur, t));
                                    let s = choose|s: int| 0 <= s < t && #[trigger] a[old_cur[s] as int][old_cur[t] as int];
                                    assert(cur@[s] == old_cur[s]);
                                    assert(a[cur@[s] as int][cur@[t] as int]);
                                }
                            }
                            assert forall|i: int| 0 <= i < n && owner[i] == m implies #[trigger] cur@.contains(i as usize) by {
                                if i == j {
                                    assert(cur@[cur@.len() - 1] == j);
                                } else {
                                    assert(old_cur.contains(i as usize));
                                    let w = choose|w: int| 0 <= w < old_cur.len() && old_cur[w] == i as usize;
                                    assert(cur@[w] == i as usize);
                                }
                            }
                            assert forall|i: int| 0 <= i < n && 0 <= owner[i] < m implies #[trigger] cs[owner[i]].contains(i as usize) by {
                                assert(i != j);
                            }
                        }
                    } else {
                        proof {
                            if on@[j as int] && a[u as int][j as int] {
                                assert(owner[j as int] >= 0);
                                if owner[j as int] < m {
                                    let k = owner[j as int];
                                    assert(cs[k].contains(j as usize));
                                    let t = choose|t: int| 0 <= t < cs[k].len() && cs[k][t] == j as usize;
                                    assert(a[j as int][u as int]);
                                    assert(on@[u as int]);
                                    assert(closed_upto(a, on@, owner, cs[k], k, cs[k].len() as int));
                                    assert(a[cs[k][t] as int][u as int]);
                                    assert(owner[u as int] == k);
                                }
                            }
                        }
                    }
                    j += 1;
                }
                proof {
                    assert forall|t: int, jj: int| 0 <= t < head + 1 && 0 <= jj < on@.len() && on@[jj] && #[trigger] a[cur@[t] as int][jj]
                        implies owner[jj] == m by {
                        if t < head {
                            assert(closed_upto(a, on@, owner, cur@, m as int, head as int));
                        }
                    }
                }
                head += 1;
            }
            let ghost fin = cur@;
            comps.push(cur);
            proof {
                let cs2 = comps_view(comps@);
                assert(cs2 =~= cs.push(fin));
                assert forall|k: int| 0 <= k < cs2.len() implies closed_upto(a, on@, owner, #[trigger] cs2[k], k, cs2[k].len() as int) by {
                    if k < m {
                        assert(cs2[k] == cs[k]);
                        assert forall|t: int, jj: int| 0 <= t < cs[k].len() && 0 <= jj < on@.len() && on@[jj] && #[trigger] a[cs[k][t] as int][jj]
                            implies owner[jj] == k by {
                            assert(closed_upto(a, on@, owner, cs[k], k, cs[k].len() as int));
                        }
                    }
                }
                assert forall|k: int, t: int| 0 <= k < cs2.len() && 0 <= t < cs2[k].len() implies
                    (#[trigger] cs2[k][t]) < n && owner[cs2[k][t] as int] == k by {
                    if k < m {
                        assert(cs2[k] == cs[k]);
                    }
                }
                assert forall|i: int| 0 <= i < n && owner[i] >= 0 implies owner[i] < cs2.len() && #[trigger] cs2[owner[i]].contains(i as usize) by {
                    if owner[i] < m {
                        assert(cs2[owner[i]] == cs[owner[i]]);
                    }
                }
                assert forall|k: int, t: int| 0 <= k < cs2.len() && 0 <= t < cs2[k].len() implies cs2[k][0] <= #[trigger] cs2[k][t] by {
                    if k < m {
                        assert(cs2[k] == cs[k]);
                    }
                }
                assert(owned_by(cs2, owner, n as int));
                assert(search_state(a, on@, cs2, owner));
            }
        }
        start += 1;
    }
    proof {
        assert forall|i: int| 0 <= i < on@.len() implies (on@[i] <==> owner[i] >= 0) by {}
    }
    comps
}


/// The members of `c` in increasing order, each once.
fn ascending(c: &Vec<usize>, n: usize) -> (r: Vec<usize>)
    requires
        forall|t: int| 0 <= t < c@.len() ==> #[trigger] c@[t] < n,
    ensures
        forall|i: int, j: int| 0 <= i < j < r@.len() ==> r@[i] < r@[j],
        forall|t: int| 0 <= t < r@.len() ==> c@.contains(#[trigger] r@[t]),
        forall|t: int| 0 <= t < c@.len() ==> r@.contains(#[trigger] c@[t]),
{
    let mut mark: Vec<bool> = Vec::new();
    let mut z: usize = 0;
    while z < n
        invariant
            z <= n,
            mark@.len() == z,
            forall|i: int| 0 <= i < z ==> !mark@[i],
        decreases n - z,
    {
        mark.push(false);
        z += 1;
    }
    let mut t: usize = 0;
    while t < c.len()
        invariant
            t <= c@.len(),
            mark@.len() == n,
            forall|u: int| 0 <= u < c@.len() ==> #[trigger] c@[u] < n,
            forall|i: int| 0 <= i < n ==> (mark@[i] <==> exists|u: int| 0 <= u < t && #[trigger] c@[u] == i),
        decreases c@.len() - t,
    {
        let x = c[t];
        mark.set(x, true);
        proof {
            assert forall|i: int| 0 <= i < n implies (mark@[i] <==> exists|u: int| 0 <= u < t + 1 && #[trigger] c@[u] == i) by {
                if i == x {
                    assert(c@[t as int] == i);
                }
            }
        }
        t += 1;
    }
    let mut r: Vec<usize> = Vec::new();
    let mut i: usize = 0;
    while i < n
        invariant
            i <= n,
            mark@.len() == n,
            forall|u: int| 0 <= u < c@.len() ==> #[trigger] c@[u] < n,
            forall|k: int| 0 <= k < n ==> (mark@[k] <==> exists|u: int| 0 <= u < c@.len() && #[trigger] c@[u] == k),
            forall|a: int, b: int| 0 <= a < b < r@.len() ==> r@[a] < r@[b],
            forall|a: int| 0 <= a < r@.len() ==> #[trigger] r@[a] < i && mark@[r@[a] as int],
            forall|k: int| 0 <= k < i && mark@[k] ==> #[trigger] r@.contains(k as usize),
        decreases n - i,
    {
        if mark[i] {
            let ghost old_r = r@;
            r.push(i);
            proof {
                assert forall|k: int| 0 <= k < i + 1 && mark@[k] implies #[trigger] r@.contains(k as usize) by {
                    if k == i {
                        assert(r@[r@.len() - 1] == i);
                    } else {
                        assert(old_r.contains(k as usize));
                        let w = choose|w: int| 0 <= w < old_r.len() && old_r[w] == k as usize;
                        assert(r@[w] == k as usize);
                    }
                }
            }
        }
        i += 1;
    }
    proof {
        assert forall|u: int| 0 <= u < r@.len() implies c@.contains(#[trigger] r@[u]) by {
            let k = r@[u] as int;
            assert(mark@[k]);
            let w = choose|w: int| 0 <= w < c@.len() && #[trigger] c@[w] == k;
        }
        assert forall|u: int| 0 <= u < c@.len() implies r@.contains(#[trigger] c@[u]) by {
            let k = c@[u] as int;
            assert(k < n);
            assert(mark@[k]);
            assert((k as usize) == c@[u]);
            assert(r@.contains(k as usize));
        }
    }
    r
}

proof fn lemma_push_fresh(p: Seq<usize>, k: usize)
    requires
        p.no_duplicates(),
        !p.contains(k),
    ensures
        p.push(k).no_duplicates(),
        forall|x: usize| #[trigger] p.push(k).contains(x) <==> (p.contains(x) || x == k),
{
    let q = p.push(k);
    assert forall|x: usize| #[trigger] q.contains(x) <==> (p.contains(x) || x == k) by {
        if p.contains(x) {
            let w = choose|w: int| 0 <= w < p.len() && p[w] == x;
            assert(q[w] == x);
        }
        if x == k {
            assert(q[q.len() - 1] == x);
        }
        if q.contains(x) && x != k {
            let w = choose|w: int| 0 <= w < q.len() && q[w] == x;
            assert(p[w] == x);
        }
    }
    assert forall|i: int, j: int| 0 <= i < q.len() && 0 <= j < q.len() && i != j implies q[i] != q[j] by {
        if i == q.len() - 1 {
            assert(p.contains(q[j]));
        } else if j == q.len() - 1 {
            assert(p.contains(q[i]));
        }
    }
}

/// List `a` of `cs` comes before list `b`: it is longer, or as long and
/// earlier.
pub open spec fn size_before(cs: Seq<Vec<usize>>, a: usize, b: usize) -> bool {
    cs[a as int]@.len() > cs[b as int]@.len() || (cs[a as int]@.len() == cs[b as int]@.len() && a < b)
}

/// Consecutive positions of `perm` are in [`size_before`] order.
pub open spec fn size_ordered(cs: Seq<Vec<usize>>, perm: Seq<usize>) -> bool {
    forall|i: int| 0 <= i < perm.len() - 1 ==> #[trigger] size_before(cs, perm[i], perm[i + 1])
}

proof fn lemma_push_ordered(cs: Seq<Vec<usize>>, p: Seq<usize>, k: usize)
    requires
        size_ordered(cs, p),
        p.len() > 0 ==> size_before(cs, p[p.len() - 1], k),
    ensures
        size_ordered(cs, p.push(k)),
{
    let q = p.push(k);
    assert forall|i: int| 0 <= i < q.len() - 1 implies #[trigger] size_before(cs, q[i], q[i + 1]) by {
        if i < p.len() - 1 {
            assert(size_before(cs, p[i], p[i + 1]));
        }
    }
}

/// The positions of `cs`, largest lists first and, among lists of one
/// length, in their given order.
fn order_by_size(cs: &Vec<Vec<usize>>) -> (perm: Vec<usize>)
    requires
        forall|k: int| 0 <= k < cs@.len() ==> #[trigger] cs@[k]@.len() > 0,
    ensures
        forall|i: int| 0 <= i < perm@.len() ==> #[trigger] perm@[i] < cs@.len(),
        perm@.no_duplicates(),
        forall|k: int| 0 <= k < cs@.len() ==> #[trigger] perm@.contains(k as usize),
        size_ordered(cs@, perm@),
{
    let mut top: usize = 0;
    let mut q: usize = 0;
    while q < cs.len()
        invariant
            q <= cs@.len(),
            forall|k: int| 0 <= k < q ==> #[trigger] cs@[k]@.len() <= top,
        decreases cs@.len() - q,
    {
        if cs[q].len() > top {
            top = cs[q].len();
        }
        q += 1;
    }
    let mut perm: Vec<usize> = Vec::new();
    let mut size: usize = top;
    while size > 0
        invariant
            forall|k: int| 0 <= k < cs@.len() ==> #[trigger] cs@[k]@.len() <= top,
            forall|k: int| 0 <= k < cs@.len() ==> #[trigger] cs@[k]@.len() > 0,
            size <= top,
            forall|i: int| 0 <= i < perm@.len() ==> #[trigger] perm@[i] < cs@.len() && cs@[perm@[i] as int]@.len() > size,
            perm@.no_duplicates(),
            forall|k: int| 0 <= k < cs@.len() ==> (#[trigger] perm@.contains(k as usize) <==> cs@[k]@.len() > size),
            size_ordered(cs@, perm@),
        decreases size,
    {
        let mut k: usize = 0;
        while k < cs.len()
            invariant
                0 < size <= top,
                k <= cs@.len(),
                forall|i: int| 0 <= i < perm@.len() ==> #[trigger] perm@[i] < cs@.len() && cs@[perm@[i] as int]@.len() >= size,
                perm@.no_duplicates(),
                forall|x: int| 0 <= x < cs@.len() ==> (#[trigger] perm@.contains(x as usize)
                    <==> (cs@[x]@.len() > size || (cs@[x]@.len() == size && x < k))),
                size_ordered(cs@, perm@),
                perm@.len() > 0 && cs@[perm@[perm@.len() - 1] as int]@.len() == size ==> perm@[perm@.len() - 1] < k,
            decreases cs@.len() - k,
        {
            if cs[k].len() == size {
                let ghost old_p = perm@;
                proof {
                    assert(!old_p.contains((k as int) as usize));
                    lemma_push_fresh(old_p, k);
                    if old_p.len() > 0 {
                        assert(size_before(cs@, old_p[old_p.len() - 1], k));
                    }
                    lemma_push_ordered(cs@, old_p, k);
                }
                perm.push(k);
                proof {
                    assert(perm@ == old_p.push(k));
                    assert forall|x: int| 0 <= x < cs@.len() implies (#[trigger] perm@.contains(x as usize)
                        <==> (cs@[x]@.len() > size || (cs@[x]@.len() == size && x < k + 1))) by {
                        assert(old_p.push(k).contains(x as usize) <==> (old_p.contains(x as usize) || x as usize == k));
                    }
                }
            }
            k += 1;
        }
        proof {
            assert forall|i: int| 0 <= i < perm@.len() implies #[trigger] perm@[i] < cs@.len() && cs@[perm@[i] as int]@.len() > size - 1 by {}
            assert forall|x: int| 0 <= x < cs@.len() implies (#[trigger] perm@.contains(x as usize) <==> cs@[x]@.len() > size - 1) by {}
        }
        size -= 1;
    }
    perm
}


/// The index-level facts about the ordered components `out` of the online
/// nodes `on` of the graph `a`, with `bo[k]` the members of `out[k]` in an
/// order in which each is adjacent to an earlier one.
pub open spec fn index_components(a: Seq<Seq<bool>>, on: Seq<bool>, out: Seq<Seq<usize>>, bo: Seq<Seq<usize>>) -> bool {
    let n = on.len() as int;
    &&& forall|k: int| 0 <= k < out.len() ==> #[trigger] out[k].len() > 0
    &&& forall|k: int, i: int, j: int| 0 <= k < out.len() && 0 <= i < j < out[k].len() ==> #[trigger] out[k][i] < #[trigger] out[k][j]
    &&& forall|k: int, t: int| 0 <= k < out.len() && 0 <= t < out[k].len() ==> #[trigger] out[k][t] < n && on[out[k][t] as int]
    &&& forall|i: int| 0 <= i < n && on[i] ==> exists|k: int| 0 <= k < out.len() && #[trigger] out[k].contains(i as usize)
    &&& forall|k1: int, k2: int, x: usize| 0 <= k1 < out.len() && 0 <= k2 < out.len() && #[trigger] out[k1].contains(x)
        && #[trigger] out[k2].contains(x) ==> k1 == k2
    &&& forall|k: int, x: usize, j: int| 0 <= k < out.len() && #[trigger] out[k].contains(x) && 0 <= j < n && on[j]
        && #[trigger] a[x as int][j] ==> out[k].contains(j as usize)
    &&& bo.len() == out.len()
    &&& forall|k: int| 0 <= k < out.len() ==> #[trigger] bo[k].to_set() == out[k].to_set() && grown(a, bo[k])
    &&& forall|k: int, t: int| 0 <= k < out.len() && 0 <= t < bo[k].len() ==> #[trigger] bo[k][t] < n
    &&& forall|k: int| 0 <= k < out.len() - 1 ==> (#[trigger] out[k]).len() > out[k + 1].len()
        || (out[k].len() == out[k + 1].len() && out[k][0] < out[k + 1][0])
}

/// The connected components of the online nodes of a symmetric graph,
/// each in increasing order, largest first and, among components of one
/// size, by their least member.
fn ordered_components(adj: &Vec<Vec<bool>>, on: &Vec<bool>) -> (r: (Vec<Vec<usize>>, Ghost<Seq<Seq<usize>>>))
    requires
        symmetric(adj_view(adj@), on@.len() as int),
    ensures
        index_components(adj_view(adj@), on@, comps_view(r.0@), r.1@),
{
    let n = on.len();
    let ghost a = adj_view(adj@);
    let bfs = search_components(adj, on);
    let ghost b = comps_view(bfs@);
    let ghost owner = choose|owner: Seq<int>| #[trigger] search_state(a, on@, b, owner)
        && forall|i: int| 0 <= i < on@.len() ==> (on@[i] <==> owner[i] >= 0);
    let mut asc: Vec<Vec<usize>> = Vec::new();
    let mut k: usize = 0;
    while k < bfs.len()
        invariant
            k <= bfs@.len(),
            n == on@.len(),
            b == comps_view(bfs@),
            search_state(a, on@, b, owner),
            asc@.len() == k,
            forall|q: int| 0 <= q < k ==> #[trigger] asc@[q]@.len() > 0,
            forall|q: int, i: int, j: int| 0 <= q < k && 0 <= i < j < asc@[q]@.len() ==> #[trigger] asc@[q]@[i] < #[trigger] asc@[q]@[j],
            forall|q: int, t: int| 0 <= q < k && 0 <= t < asc@[q]@.len() ==> b[q].contains(#[trigger] asc@[q]@[t]),
            forall|q: int, t: int| 0 <= q < k && 0 <= t < b[q].len() ==> asc@[q]@.contains(#[trigger] b[q][t]),
            forall|q: int| 0 <= q < k ==> #[trigger] asc@[q]@[0] == b[q][0],
        decreases bfs@.len() - k,
    {
        proof {
            assert(b[k as int] == bfs@[k as int]@);
            assert forall|t: int| 0 <= t < bfs@[k as int]@.len() implies #[trigger] bfs@[k as int]@[t] < n by {
                assert(b[k as int][t] < n);
            }
        }
        let c = ascending(&bfs[k], n);
        proof {
            let bk = b[k as int];
            assert(bk.len() > 0);
            assert(c@.contains(bk[0]));
            let w = choose|w: int| 0 <= w < c@.len() && c@[w] == bk[0];
            assert(bk.contains(c@[0]));
            let v = choose|v: int| 0 <= v < bk.len() && bk[v] == c@[0];
            assert(bk[0] <= bk[v]);
            if w > 0 {
                assert(c@[0] < c@[w]);
            }
            assert(c@[0] == bk[0]);
        }
        asc.push(c);
        k += 1;
    }
    let perm = order_by_size(&asc);
    let mut out: Vec<Vec<usize>> = Vec::new();
    let mut i: usize = 0;
    while i < perm.len()
        invariant
            i <= perm@.len(),
            out@.len() == i,
            asc@.len() == bfs@.len(),
            forall|x: int| 0 <= x < perm@.len() ==> #[trigger] perm@[x] < asc@.len(),
            forall|x: int| 0 <= x < i ==> #[trigger] out@[x]@ == asc@[perm@[x] as int]@,
        decreases perm@.len() - i,
    {
        let p = perm[i];
        let mut c: Vec<usize> = Vec::new();
        let mut t: usize = 0;
        while t < asc[p].len()
            invariant
                p < asc@.len(),
                t <= asc@[p as int]@.len(),
                c@ == asc@[p as int]@.take(t as int),
            decreases asc@[p as int]@.len() - t,
        {
            c.push(asc[p][t]);
            t += 1;
            assert(c@ =~= asc@[p as int]@.take(t as int));
        }
        assert(c@ =~= asc@[p as int]@);
        out.push(c);
        i += 1;
    }
    let ghost bo = Seq::new(perm@.len(), |x: int| b[perm@[x] as int]);
    proof {
        let o = comps_view(out@);
        assert(o.len() == perm@.len());
        assert forall|x: int| 0 <= x < o.len() implies #[trigger] o[x] == asc@[perm@[x] as int]@ by {
            assert(o[x] == out@[x]@);
        }
        assert(search_state(a, on@, b, owner));
        assert forall|kk: int| 0 <= kk < o.len() implies #[trigger] o[kk].len() > 0 by {
            assert(asc@[perm@[kk] as int]@.len() > 0);
        }
        assert forall|kk: int, x: int, y: int| 0 <= kk < o.len() && 0 <= x < y < o[kk].len() implies #[trigger] o[kk][x] < #[trigger] o[kk][y] by {
            let q = perm@[kk] as int;
            assert(asc@[q]@[x] < asc@[q]@[y]);
        }
        assert forall|kk: int, t: int| 0 <= kk < o.len() && 0 <= t < o[kk].len() implies #[trigger] o[kk][t] < n && on@[o[kk][t] as int] by {
            let q = perm@[kk] as int;
            assert(b[q].contains(asc@[q]@[t]));
            let w = choose|w: int| 0 <= w < b[q].len() && b[q][w] == asc@[q]@[t];
            assert(b[q][w] < n && owner[b[q][w] as int] == q);
        }
        assert forall|x: int| 0 <= x < n && on@[x] implies exists|kk: int| 0 <= kk < o.len() && #[trigger] o[kk].contains(x as usize) by {
            assert(owner[x] >= 0);
            let q = owner[x];
            assert(b[q].contains(x as usize));
            let w = choose|w: int| 0 <= w < b[q].len() && b[q][w] == x as usize;
            assert(asc@[q]@.contains(b[q][w]));
            assert(perm@.contains(q as usize));
            let pos = choose|pos: int| 0 <= pos < perm@.len() && perm@[pos] == q as usize;
            assert(o[pos] == asc@[q]@);
            assert(o[pos].contains(x as usize));
        }
        assert forall|k1: int, k2: int, x: usize| 0 <= k1 < o.len() && 0 <= k2 < o.len() && #[trigger] o[k1].contains(x)
            && #[trigger] o[k2].contains(x) implies k1 == k2 by {
            let q1 = perm@[k1] as int;
            let q2 = perm@[k2] as int;
            let w1 = choose|w: int| 0 <= w < o[k1].len() && o[k1][w] == x;
            let w2 = choose|w: int| 0 <= w < o[k2].len() && o[k2][w] == x;
            assert(b[q1].contains(asc@[q1]@[w1]));
            assert(b[q2].contains(asc@[q2]@[w2]));
            let v1 = choose|v: int| 0 <= v < b[q1].len() && b[q1][v] == x;
            let v2 = choose|v: int| 0 <= v < b[q2].len() && b[q2][v] == x;
            assert(owner[b[q1][v1] as int] == q1);
            assert(owner[b[q2][v2] as int] == q2);
            assert(perm@[k1] == perm@[k2]);
        }
        assert forall|kk: int, x: usize, j: int| 0 <= kk < o.len() && #[trigger] o[kk].contains(x) && 0 <= j < n && on@[j]
            && #[trigger] a[x as int][j] implies o[kk].contains(j as usize) by {
            let q = perm@[kk] as int;
            let w = choose|w: int| 0 <= w < o[kk].len() && o[kk][w] == x;
            assert(b[q].contains(asc@[q]@[w]));
            let v = choose|v: int| 0 <= v < b[q].len() && b[q][v] == x;
            assert(closed_upto(a, on@, owner, b[q], q, b[q].len() as int));
            assert(a[b[q][v] as int][j]);
            assert(owner[j] == q);
            assert(owner[j] >= 0);
            assert(b[q].contains(j as usize));
            let v2 = choose|v2: int| 0 <= v2 < b[q].len() && b[q][v2] == j as usize;
            assert(asc@[q]@.contains(b[q][v2]));
        }
        assert forall|kk: int| 0 <= kk < o.len() implies #[trigger] bo[kk].to_set() == o[kk].to_set() && grown(a, bo[kk]) by {
            let q = perm@[kk] as int;
            assert(bo[kk] == b[q]);
            assert(grown(a, b[q]));
            assert forall|x: usize| bo[kk].to_set().contains(x) <==> o[kk].to_set().contains(x) by {
                if bo[kk].contains(x) {
                    let v = choose|v: int| 0 <= v < b[q].len() && b[q][v] == x;
                    assert(asc@[q]@.contains(b[q][v]));
                }
                if o[kk].contains(x) {
                    let w = choose|w: int| 0 <= w < o[kk].len() && o[kk][w] == x;
                    assert(b[q].contains(asc@[q]@[w]));
                }
            }
            assert(bo[kk].to_set() =~= o[kk].to_set());
        }
        assert forall|kk: int, t: int| 0 <= kk < o.len() && 0 <= t < bo[kk].len() implies #[trigger] bo[kk][t] < n by {
            let q = perm@[kk] as int;
            assert(bo[kk] == b[q]);
            assert(b[q][t] < n);
        }
        assert forall|kk: int| 0 <= kk < o.len() - 1 implies (#[trigger] o[kk]).len() > o[kk + 1].len()
            || (o[kk].len() == o[kk + 1].len() && o[kk][0] < o[kk + 1][0]) by {
            let q1 = perm@[kk];
            let q2 = perm@[kk + 1];
            assert(size_before(asc@, q1, q2));
            assert(o[kk + 1] == asc@[q2 as int]@);
            assert(asc@[q1 as int]@[0] == b[q1 as int][0]);
            assert(asc@[q2 as int]@[0] == b[q2 as int][0]);
            if q1 < q2 {
                assert(b[q1 as int][0] < b[q2 as int][0]);
            }
        }
        assert(index_components(a, on@, o, bo));
    }
    (out, Ghost(bo))
}


// ── Name-level model ────────────────────────────────────────────────────────

/// The declared validator names.
pub open spec fn declared(vs: Seq<ValidatorView>) -> Set<Seq<char>> {
    names_of(vs).to_set()
}

/// The declared validators that `online` names; other names are ignored.
pub open spec fn online_declared(vs: Seq<ValidatorView>, online: Seq<Seq<char>>) -> Set<Seq<char>> {
    declared(vs).filter(|x: Seq<char>| online.contains(x))
}

/// Member `t` of `ord` is linked to an earlier member.
pub open spec fn linked_earlier(vs: Seq<ValidatorView>, ord: Seq<Seq<char>>, t: int) -> bool {
    exists|s: int| 0 <= s < t && #[trigger] linked(vs, ord[s], ord[t])
}

/// Every member of `ord` but the first is linked to an earlier one, so all
/// of them are connected.
pub open spec fn connected_order(vs: Seq<ValidatorView>, ord: Seq<Seq<char>>) -> bool {
    forall|t: int| 0 < t < ord.len() ==> #[trigger] linked_earlier(vs, ord, t)
}

/// The members of `c` can be listed so that each but the first is linked
/// to an earlier one.
pub open spec fn has_connected_order(vs: Seq<ValidatorView>, c: Seq<Seq<char>>) -> bool {
    exists|ord: Seq<Seq<char>>| ord.to_set() == c.to_set() && #[trigger] connected_order(vs, ord)
}

/// `cs` lists the connected components of the validators `on`, linked as
/// `vs` declares: each one non-empty, sorted, closed under links within
/// `on` and connected; together they cover `on`, each validator once;
/// larger components come first and, among components of one size, the
/// one with the smaller first name.
#[verifier::opaque]
pub open spec fn are_components(vs: Seq<ValidatorView>, on: Set<Seq<char>>, cs: Seq<Seq<Seq<char>>>) -> bool {
    &&& forall|k: int| 0 <= k < cs.len() ==> #[trigger] cs[k].len() > 0 && strictly_sorted(cs[k])
    &&& forall|k: int, t: int| 0 <= k < cs.len() && 0 <= t < cs[k].len() ==> on.contains(#[trigger] cs[k][t])
    &&& forall|x: Seq<char>| #[trigger] on.contains(x) ==> exists|k: int| 0 <= k < cs.len() && #[trigger] cs[k].contains(x)
    &&& forall|k1: int, k2: int, x: Seq<char>| 0 <= k1 < cs.len() && 0 <= k2 < cs.len() && #[trigger] cs[k1].contains(x)
        && #[trigger] cs[k2].contains(x) ==> k1 == k2
    &&& forall|k: int, x: Seq<char>, y: Seq<char>| 0 <= k < cs.len() && #[trigger] cs[k].contains(x) && on.contains(y)
        && #[trigger] linked(vs, x, y) ==> cs[k].contains(y)
    &&& forall|k: int| 0 <= k < cs.len() ==> #[trigger] has_connected_order(vs, cs[k])
    &&& forall|k: int| 0 <= k < cs.len() - 1 ==> (#[trigger] cs[k]).len() > cs[k + 1].len()
        || (cs[k].len() == cs[k + 1].len() && str_lt(cs[k][0], cs[k + 1][0]))
}

/// Index lists read as name lists.
pub open spec fn name_lists(names: Seq<Seq<char>>, o: Seq<Seq<usize>>) -> Seq<Seq<Seq<char>>> {
    o.map_values(|c: Seq<usize>| c.map_values(|i: usize| names[i as int]))
}

proof fn lemma_name_components(
    vs: Seq<ValidatorView>,
    names: Seq<Seq<char>>,
    online: Seq<Seq<char>>,
    on: Seq<bool>,
    a: Seq<Seq<bool>>,
    o: Seq<Seq<usize>>,
    bo: Seq<Seq<usize>>,
)
    requires
        strictly_sorted(names),
        names.to_set() == declared(vs),
        on.len() == names.len(),
        forall|i: int| 0 <= i < names.len() ==> (#[trigger] on[i] <==> online.contains(names[i])),
        names.len() <= usize::MAX,
        a.len() == names.len(),
        forall|i: int| 0 <= i < names.len() ==> #[trigger] a[i].len() == names.len(),
        forall|i: int, j: int| 0 <= i < names.len() && 0 <= j < names.len() ==>
            (#[trigger] a[i][j] <==> linked(vs, names[i], names[j])),
        index_components(a, on, o, bo),
    ensures
        are_components(vs, online_declared(vs, online), name_lists(names, o)),
{
    reveal(are_components);
    let n = names.len() as int;
    let c = name_lists(names, o);
    let on_set = online_declared(vs, online);
    assert forall|k: int| 0 <= k < c.len() implies #[trigger] c[k] == o[k].map_values(|i: usize| names[i as int]) by {}
    assert forall|k: int, t: int| 0 <= k < c.len() && 0 <= t < c[k].len() implies #[trigger] c[k][t] == names[o[k][t] as int] by {
        assert(c[k] == o[k].map_values(|i: usize| names[i as int]));
    }
    // Names are distinct.
    assert forall|i: int, j: int| 0 <= i < n && 0 <= j < n && #[trigger] names[i] == #[trigger] names[j] implies i == j by {
        lemma_sorted_distinct(names, i, j);
    }
    // Membership of a name in a component is membership of its index.
    assert forall|k: int, i: int| 0 <= k < c.len() && 0 <= i < n implies
        (#[trigger] c[k].contains(#[trigger] names[i]) <==> o[k].contains(i as usize)) by {
        if c[k].contains(names[i]) {
            let t = choose|t: int| 0 <= t < c[k].len() && c[k][t] == names[i];
            assert(c[k][t] == names[o[k][t] as int]);
            assert(o[k][t] < n);
            assert(o[k][t] as int == i);
            assert(o[k][t] == i as usize);
        }
        if o[k].contains(i as usize) {
            let t = choose|t: int| 0 <= t < o[k].len() && o[k][t] == i as usize;
            assert(c[k][t] == names[i]);
        }
    }
    // Every member of a component is a name.
    assert forall|k: int, x: Seq<char>| 0 <= k < c.len() && #[trigger] c[k].contains(x) implies
        exists|i: int| 0 <= i < n && #[trigger] names[i] == x && o[k].contains(i as usize) by {
        let t = choose|t: int| 0 <= t < c[k].len() && c[k][t] == x;
        let i = o[k][t] as int;
        assert(c[k][t] == names[i]);
        assert(o[k][t] < n);
        assert(o[k].contains(i as usize));
    }
    // Every declared name is some names[i].
    assert forall|x: Seq<char>| #[trigger] declared(vs).contains(x) implies exists|i: int| 0 <= i < n && #[trigger] names[i] == x by {
        assert(names.to_set().contains(x));
    }
    assert forall|k: int| 0 <= k < c.len() implies #[trigger] c[k].len() > 0 && strictly_sorted(c[k]) by {
        assert(o[k].len() > 0);
        assert forall|x: int, y: int| 0 <= x < y < c[k].len() implies str_lt(#[trigger] c[k][x], #[trigger] c[k][y]) by {
            assert(o[k][x] < o[k][y]);
            assert(o[k][y] < n);
            assert(c[k][x] == names[o[k][x] as int]);
            assert(c[k][y] == names[o[k][y] as int]);
        }
    }
    assert forall|k: int, t: int| 0 <= k < c.len() && 0 <= t < c[k].len() implies on_set.contains(#[trigger] c[k][t]) by {
        let i = o[k][t] as int;
        assert(i < n && on[i]);
        assert(c[k][t] == names[i]);
        assert(names.to_set().contains(names[i]));
    }
    assert forall|x: Seq<char>| #[trigger] on_set.contains(x) implies exists|k: int| 0 <= k < c.len() && #[trigger] c[k].contains(x) by {
        assert(declared(vs).contains(x));
        let i = choose|i: int| 0 <= i < n && #[trigger] names[i] == x;
        assert(online.contains(x));
        assert(on[i]);
        let k = choose|k: int| 0 <= k < o.len() && #[trigger] o[k].contains(i as usize);
        assert(c[k].contains(names[i]));
    }
    assert forall|k1: int, k2: int, x: Seq<char>| 0 <= k1 < c.len() && 0 <= k2 < c.len() && #[trigger] c[k1].contains(x)
        && #[trigger] c[k2].contains(x) implies k1 == k2 by {
        let i = choose|i: int| 0 <= i < n && #[trigger] names[i] == x && o[k1].contains(i as usize);
        assert(c[k2].contains(names[i]));
        assert(o[k2].contains(i as usize));
    }
    assert forall|k: int, x: Seq<char>, y: Seq<char>| 0 <= k < c.len() && #[trigger] c[k].contains(x) && on_set.contains(y)
        && #[trigger] linked(vs, x, y) implies c[k].contains(y) by {
        let i = choose|i: int| 0 <= i < n && #[trigger] names[i] == x && o[k].contains(i as usize);
        assert(declared(vs).contains(y));
        let j = choose|j: int| 0 <= j < n && #[trigger] names[j] == y;
        assert(on[j]);
        assert(a[i][j]);
        assert(o[k].contains(j as usize));
        assert(c[k].contains(names[j]));
    }
    assert forall|k: int| 0 <= k < c.len() implies #[trigger] has_connected_order(vs, c[k]) by {
        let b = bo[k];
        let ord = b.map_values(|i: usize| names[i as int]);
        assert(c.len() == o.len());
        assert(0 <= k < o.len());
        assert(bo[k].to_set() == o[k].to_set());
        assert(grown(a, bo[k]));
        assert forall|x: Seq<char>| ord.to_set().contains(x) <==> c[k].to_set().contains(x) by {
            if ord.contains(x) {
                let t = choose|t: int| 0 <= t < ord.len() && ord[t] == x;
                assert(b[t] < n);
                assert(b.to_set().contains(b[t]));
                assert(o[k].contains(b[t]));
                assert(c[k].contains(names[b[t] as int]));
            }
            if c[k].contains(x) {
                let i = choose|i: int| 0 <= i < n && #[trigger] names[i] == x && o[k].contains(i as usize);
                assert(o[k].to_set().contains(i as usize));
                assert(b.contains(i as usize));
                let t = choose|t: int| 0 <= t < b.len() && b[t] == i as usize;
                assert(ord[t] == x);
            }
        }
        assert(ord.to_set() =~= c[k].to_set());
        assert forall|t: int| 0 < t < ord.len() implies #[trigger] linked_earlier(vs, ord, t) by {
            assert(reached_earlier(a, b, t));
            let s = choose|s: int| 0 <= s < t && #[trigger] a[b[s] as int][b[t] as int];
            assert(b[s] < n && b[t] < n);
            assert(linked(vs, names[b[s] as int], names[b[t] as int]));
            assert(linked(vs, ord[s], ord[t]));
        }
        assert(connected_order(vs, ord));
    }
    assert forall|k: int| 0 <= k < c.len() - 1 implies (#[trigger] c[k]).len() > c[k + 1].len()
        || (c[k].len() == c[k + 1].len() && str_lt(c[k][0], c[k + 1][0])) by {
        assert(o[k].len() > 0 && o[k + 1].len() > 0);
        assert(c[k][0] == names[o[k][0] as int]);
        assert(c[k + 1][0] == names[o[k + 1][0] as int]);
        assert(o[k][0] < n && o[k + 1][0] < n);
        if o[k].len() == o[k + 1].len() {
            assert(o[k][0] < o[k + 1][0]);
        }
    }
    assert(are_components(vs, on_set, c));
}


// ── Analysis ────────────────────────────────────────────────────────────────

/// The state a topology is in.
#[derive(Clone, Copy, Debug, PartialEq, Eq, Structural)]
pub enum TopologyPhase {
    Pending,
    Healthy,
    Degraded,
    Partitioned,
}

/// What the analysis finds of a topology under a given liveness: the
/// counts, the connected groups of online validators and the structural
/// recommendations. The online percentage, and the phase and advice that
/// depend on it, are derived by the caller from the counts.
#[derive(Clone, Debug, PartialEq, Eq)]
pub struct TopologyAnalysis {
    pub total_validators: usize,
    pub online_validators: usize,
    pub partition_detected: bool,
    /// Connected groups among online validators (sorted, deterministic).
    pub components: Vec<Vec<String>>,
    pub recommendations: Vec<String>,
}

/// The distinct peers a validator declares besides itself.
pub open spec fn distinct_peers(v: ValidatorView) -> Set<Seq<char>> {
    v.1.to_set().remove(v.0)
}

/// The advice for a validator with fewer than two peers.
pub open spec fn redundancy_note(name: Seq<char>, count: nat) -> Seq<char> {
    "Validator '"@ + name + "' has only "@ + decimal(count) + " peer(s); add redundant peers (>= 2) for resilience."@
}

/// The advice for each poorly connected validator, in declaration order.
pub open spec fn redundancy_notes(vs: Seq<ValidatorView>) -> Seq<Seq<char>>
    decreases vs.len(),
{
    if vs.len() == 0 {
        seq![]
    } else {
        let v = vs.last();
        let c = distinct_peers(v).len();
        redundancy_notes(vs.drop_last()) + if c < 2 { seq![redundancy_note(v.0, c)] } else { seq![] }
    }
}

/// The advice for a network split into `groups` groups.
pub open spec fn partition_note(groups: nat) -> Seq<char> {
    "Network is partitioned into "@ + decimal(groups)
        + " groups; add cross-group peer connections to restore a single connected component."@
}

/// The structural recommendations: poorly connected validators, then a
/// split network.
pub open spec fn structural_notes(vs: Seq<ValidatorView>, groups: nat) -> Seq<Seq<char>> {
    redundancy_notes(vs) + if groups > 1 { seq![partition_note(groups)] } else { seq![] }
}

/// The components as name sequences.
pub open spec fn component_views(c: Seq<Vec<String>>) -> Seq<Seq<Seq<char>>> {
    c.map_values(|v: Vec<String>| views(v@))
}

/// `r` is the analysis of the validators `vs` when the validators `on`
/// are online.
pub open spec fn describes(r: TopologyAnalysis, vs: Seq<ValidatorView>, on: Set<Seq<char>>) -> bool {
    &&& r.total_validators == declared(vs).len()
    &&& r.online_validators == on.len()
    &&& are_components(vs, on, component_views(r.components@))
    &&& r.partition_detected == (r.components@.len() > 1)
    &&& views(r.recommendations@) == structural_notes(vs, r.components@.len())
}

/// Whether `s` is among `list`.
fn listed(list: &[String], s: &str) -> (r: bool)
    ensures
        r == views(list@).contains(s@),
{
    let mut i: usize = 0;
    while i < list.len()
        invariant
            i <= list@.len(),
            forall|k: int| 0 <= k < i ==> list@[k]@ != s@,
        decreases list@.len() - i,
    {
        if str_eq(list[i].as_str(), s) {
            assert(views(list@)[i as int] == s@);
            return true;
        }
        i += 1;
    }
    proof {
        if views(list@).contains(s@) {
            let w = choose|w: int| 0 <= w < views(list@).len() && views(list@)[w] == s@;
            assert(list@[w]@ == s@);
        }
    }
    false
}

/// The number of distinct peers a validator declares besides itself.
fn peer_count(v: &TopologyValidator) -> (c: usize)
    ensures
        c == distinct_peers((v.name@, views(v.peers@))).len(),
{
    let ghost ps = views(v.peers@);
    let mut t: Vec<(String, usize)> = Vec::new();
    let ghost mut seen: Seq<Seq<char>> = seq![];
    let mut l: usize = 0;
    proof {
        assert(tally_keys(t@).to_set() =~= seen.to_set());
    }
    while l < v.peers.len()
        invariant
            l <= v.peers@.len(),
            ps == views(v.peers@),
            seen.len() <= l,
            tallies(t@, seen),
            seen.to_set() == ps.take(l as int).to_set().remove(v.name@),
        decreases v.peers@.len() - l,
    {
        let p = v.peers[l].as_str();
        proof {
            assert(ps.take(l + 1) =~= ps.take(l as int).push(p@));
        }
        let ghost pt1 = ps.take(l + 1);
        let ghost pt0 = ps.take(l as int);
        if !str_eq(p, v.name.as_str()) {
            tally_add(&mut t, p, Ghost(seen));
            proof {
                assert forall|x: Seq<char>| seen.push(p@).to_set().contains(x) <==> ps.take(l + 1).to_set().remove(v.name@).contains(x) by {
                    if seen.push(p@).contains(x) && x != p@ {
                        let w = choose|w: int| 0 <= w < seen.len() + 1 && seen.push(p@)[w] == x;
                        assert(seen[w] == x);
                        assert(seen.to_set().contains(x));
                        assert(ps.take(l as int).contains(x));
                        let w2 = choose|w2: int| 0 <= w2 < l && pt0[w2] == x;
                        assert(ps.take(l + 1)[w2] == x);
                    }
                    if x == p@ {
                        assert(seen.push(p@)[seen.len() as int] == x);
                        assert(ps.take(l + 1)[l as int] == x);
                    }
                    if ps.take(l + 1).contains(x) && x != v.name@ && x != p@ {
                        let w = choose|w: int| 0 <= w < l + 1 && pt1[w] == x;
                        assert(ps.take(l as int)[w] == x);
                        assert(ps.take(l as int).to_set().remove(v.name@).contains(x));
                        assert(seen.contains(x));
                        let w2 = choose|w2: int| 0 <= w2 < seen.len() && seen[w2] == x;
                        assert(seen.push(p@)[w2] == x);
                    }
                }
                assert(seen.push(p@).to_set() =~= ps.take(l + 1).to_set().remove(v.name@));
                seen = seen.push(p@);
            }
        } else {
            proof {
                assert(seen.to_set() =~= ps.take(l + 1).to_set().remove(v.name@));
            }
        }
        l += 1;
    }
    proof {
        assert(ps.take(v.peers@.len() as int) =~= ps);
        let keys = tally_keys(t@);
        assert forall|i: int, j: int| 0 <= i < keys.len() && 0 <= j < keys.len() && i != j implies keys[i] != keys[j] by {
            if i < j {
                assert(str_lt(keys[i], keys[j]));
                lemma_str_lt_irreflexive(keys[i]);
            } else {
                assert(str_lt(keys[j], keys[i]));
                lemma_str_lt_irreflexive(keys[j]);
            }
        }
        keys.unique_seq_to_set();
    }
    t.len()
}

/// Writes the advice for a validator with `count` peers.
fn redundancy_text(name: &str, count: usize) -> (r: String)
    ensures
        r@ == redundancy_note(name@, count as nat),
{
    let mut r = owned("Validator '");
    append(&mut r, name);
    append(&mut r, "' has only ");
    let c = u64_to_string(count as u64);
    append(&mut r, c.as_str());
    append(&mut r, " peer(s); add redundant peers (>= 2) for resilience.");
    r
}

/// Writes the advice for a network split into `groups` groups.
fn partition_text(groups: usize) -> (r: String)
    ensures
        r@ == partition_note(groups as nat),
{
    let mut r = owned("Network is partitioned into ");
    let c = u64_to_string(groups as u64);
    append(&mut r, c.as_str());
    append(&mut r, " groups; add cross-group peer connections to restore a single connected component.");
    r
}

/// The structural recommendations for the validators, with `groups`
/// connected groups online.
fn recommendations(validators: &[TopologyValidator], groups: usize) -> (r: Vec<String>)
    ensures
        views(r@) == structural_notes(validator_views(validators@), groups as nat),
{
    let ghost vs = validator_views(validators@);
    let mut r: Vec<String> = Vec::new();
    let mut k: usize = 0;
    while k < validators.len()
        invariant
            k <= validators@.len(),
            vs == validator_views(validators@),
            views(r@) == redundancy_notes(vs.take(k as int)),
        decreases validators@.len() - k,
    {
        let v = &validators[k];
        let c = peer_count(v);
        proof {
            assert(vs.take(k + 1).drop_last() =~= vs.take(k as int));
            assert(vs.take(k + 1).last() == vs[k as int]);
            assert(vs[k as int] == (v.name@, views(v.peers@)));
        }
        if c < 2 {
            let note = redundancy_text(v.name.as_str(), c);
            r.push(note);
            assert(views(r@) =~= redundancy_notes(vs.take(k as int)) + seq![redundancy_note(v.name@, c as nat)]);
        } else {
            assert(views(r@) =~= redundancy_notes(vs.take(k as int)) + seq![]);
        }
        k += 1;
    }
    assert(vs.take(validators@.len() as int) =~= vs);
    if groups > 1 {
        let ghost before = views(r@);
        r.push(partition_text(groups));
        assert(views(r@) =~= before + seq![partition_note(groups as nat)]);
    } else {
        assert(views(r@) =~= views(r@) + seq![]);
    }
    r
}

/// Which of the sorted names are online.
fn online_flags(names: &Vec<String>, online: &[String]) -> (on: Vec<bool>)
    ensures
        on@.len() == names@.len(),
        forall|i: int| 0 <= i < names@.len() ==> (#[trigger] on@[i] <==> views(online@).contains(names@[i]@)),
{
    let mut on: Vec<bool> = Vec::new();
    let mut i: usize = 0;
    while i < names.len()
        invariant
            i <= names@.len(),
            on@.len() == i,
            forall|k: int| 0 <= k < i ==> (#[trigger] on@[k] <==> views(online@).contains(names@[k]@)),
        decreases names@.len() - i,
    {
        let b = listed(online, names[i].as_str());
        on.push(b);
        i += 1;
    }
    on
}

/// The number of the sorted, distinct `names` that are flagged.
fn count_flagged(names: &Vec<String>, on: &Vec<bool>) -> (c: usize)
    requires
        strictly_sorted(views(names@)),
        on@.len() == names@.len(),
    ensures
        c == views(names@).to_set().filter(|x: Seq<char>| exists|i: int| 0 <= i < names@.len() && on@[i] && #[trigger] names@[i]@ == x).len(),
{
    let ghost nm = views(names@);
    let ghost f = |x: Seq<char>| exists|i: int| 0 <= i < names@.len() && on@[i] && #[trigger] names@[i]@ == x;
    let mut c: usize = 0;
    let ghost mut sel: Seq<Seq<char>> = seq![];
    let ghost mut idx: Seq<int> = seq![];
    let mut i: usize = 0;
    while i < names.len()
        invariant
            i <= names@.len(),
            nm == views(names@),
            strictly_sorted(nm),
            on@.len() == names@.len(),
            c == sel.len(),
            c <= i,
            idx.len() == sel.len(),
            forall|t: int| 0 <= t < idx.len() ==> 0 <= #[trigger] idx[t] < i && sel[t] == nm[idx[t]],
            forall|a: int, b: int| 0 <= a < b < idx.len() ==> #[trigger] idx[a] < #[trigger] idx[b],
            forall|x: Seq<char>| #[trigger] sel.contains(x) <==> exists|k: int| 0 <= k < i && on@[k] && #[trigger] nm[k] == x,
        decreases names@.len() - i,
    {
        if on[i] {
            proof {
                let s0 = sel;
                sel = sel.push(nm[i as int]);
                idx = idx.push(i as int);
                assert forall|x: Seq<char>| #[trigger] sel.contains(x) <==> exists|k: int| 0 <= k < i + 1 && on@[k] && #[trigger] nm[k] == x by {
                    if sel.contains(x) {
                        let w = choose|w: int| 0 <= w < sel.len() && sel[w] == x;
                        if w < s0.len() {
                            assert(s0[w] == x);
                            assert(s0.contains(x));
                        } else {
                            assert(nm[i as int] == x);
                        }
                    }
                    if exists|k: int| 0 <= k < i + 1 && on@[k] && #[trigger] nm[k] == x {
                        let k = choose|k: int| 0 <= k < i + 1 && on@[k] && #[trigger] nm[k] == x;
                        if k < i {
                            assert(s0.contains(x));
                            let w = choose|w: int| 0 <= w < s0.len() && s0[w] == x;
                            assert(sel[w] == x);
                        } else {
                            assert(sel[sel.len() - 1] == x);
                        }
                    }
                }
            }
            c += 1;
        }
        i += 1;
    }
    proof {
        assert forall|a: int, b: int| 0 <= a < sel.len() && 0 <= b < sel.len() && a != b implies sel[a] != sel[b] by {
            if a < b {
                assert(idx[a] < idx[b]);
                assert(str_lt(nm[idx[a]], nm[idx[b]]));
                lemma_str_lt_irreflexive(nm[idx[a]]);
            } else {
                assert(idx[b] < idx[a]);
                assert(str_lt(nm[idx[b]], nm[idx[a]]));
                lemma_str_lt_irreflexive(nm[idx[b]]);
            }
        }
        sel.unique_seq_to_set();
        assert forall|x: Seq<char>| sel.to_set().contains(x) <==> nm.to_set().filter(f).contains(x) by {
            if sel.contains(x) {
                let k = choose|k: int| 0 <= k < names@.len() && on@[k] && #[trigger] nm[k] == x;
                assert(names@[k]@ == x);
                assert(nm.contains(x));
            }
            if nm.to_set().filter(f).contains(x) {
                assert(f(x));
                let k = choose|k: int| 0 <= k < names@.len() && on@[k] && #[trigger] names@[k]@ == x;
                assert(nm[k] == x);
            }
        }
        assert(sel.to_set() =~= nm.to_set().filter(f));
    }
    c
}

/// Analyzes the validators given the names of those currently online.
/// Names in `online` that are not declared validators are ignored, and so
/// are declared peers that are not validators themselves.
pub fn analyze(validators: &[TopologyValidator], online: &[String]) -> (r: TopologyAnalysis)
    ensures
        describes(r, validator_views(validators@), online_declared(validator_views(validators@), views(online@))),
{
    let ghost vs = validator_views(validators@);
    let names = sorted_names(validators);
    proof {
        assert(views(names@) =~= names@.map_values(|s: String| s@));
    }
    let adj = adjacency(validators, &names);
    let on = online_flags(&names, online);
    proof {
        let a = adj_view(adj@);
        assert forall|i: int| 0 <= i < names@.len() implies #[trigger] a[i].len() == names@.len() by {
            assert(a[i] == adj@[i]@);
        }
        assert forall|i: int, j: int| 0 <= i < names@.len() && 0 <= j < names@.len() implies a[i][j] == a[j][i] by {
            assert(a[i] == adj@[i]@);
            assert(a[j] == adj@[j]@);
        }
        assert(symmetric(a, on@.len() as int));
    }
    let (idx, Ghost(bo)) = ordered_components(&adj, &on);
    let nlen = names.len();
    proof {
        assert(views(names@).len() == nlen);
        let a = adj_view(adj@);
        assert forall|i: int, j: int| 0 <= i < names@.len() && 0 <= j < names@.len() implies
            (#[trigger] a[i][j] <==> linked(vs, views(names@)[i], views(names@)[j])) by {
            assert(a[i] == adj@[i]@);
        }
        assert forall|i: int| 0 <= i < names@.len() implies (#[trigger] on@[i] <==> views(online@).contains(views(names@)[i])) by {}
        assert(views(names@).len() == names@.len());
        assert forall|q: int, t: int| 0 <= q < idx@.len() && 0 <= t < idx@[q]@.len() implies #[trigger] idx@[q]@[t] < names@.len() by {
            assert(comps_view(idx@)[q] == idx@[q]@);
            assert(comps_view(idx@)[q][t] < on@.len());
        }
        lemma_name_components(vs, views(names@), views(online@), on@, a, comps_view(idx@), bo);
    }
    let mut comps: Vec<Vec<String>> = Vec::new();
    let mut k: usize = 0;
    while k < idx.len()
        invariant
            k <= idx@.len(),
            comps@.len() == k,
            forall|q: int, t: int| 0 <= q < idx@.len() && 0 <= t < idx@[q]@.len() ==> #[trigger] idx@[q]@[t] < names@.len(),
            forall|q: int| 0 <= q < k ==> #[trigger] views(comps@[q]@) == name_lists(views(names@), comps_view(idx@))[q],
        decreases idx@.len() - k,
    {
        let mut c: Vec<String> = Vec::new();
        let mut t: usize = 0;
        let ghost target = name_lists(views(names@), comps_view(idx@))[k as int];
        proof {
            assert(target == idx@[k as int]@.map_values(|i: usize| views(names@)[i as int]));
        }
        while t < idx[k].len()
            invariant
                k < idx@.len(),
                t <= idx@[k as int]@.len(),
                forall|q: int, u: int| 0 <= q < idx@.len() && 0 <= u < idx@[q]@.len() ==> #[trigger] idx@[q]@[u] < names@.len(),
                target == idx@[k as int]@.map_values(|i: usize| views(names@)[i as int]),
                views(c@) == target.take(t as int),
            decreases idx@[k as int]@.len() - t,
        {
            let x = idx[k][t];
            assert(x < names@.len());
            let s = owned(names[x].as_str());
            let ghost before = views(c@);
            c.push(s);
            t += 1;
            assert(views(c@) =~= before.push(s@));
            assert(target.take(t as int) =~= target.take(t - 1).push(target[t - 1]));
        }
        assert(target.take(t as int) =~= target);
        comps.push(c);
        k += 1;
    }
    let ghost cv = component_views(comps@);
    proof {
        assert(cv =~= name_lists(views(names@), comps_view(idx@)));
        let nm = views(names@);
        assert forall|i: int, j: int| 0 <= i < nm.len() && 0 <= j < nm.len() && i != j implies nm[i] != nm[j] by {
            if nm[i] == nm[j] {
                lemma_sorted_distinct(nm, i, j);
            }
        }
        nm.unique_seq_to_set();
    }
    let online_count = count_flagged(&names, &on);
    proof {
        let nm = views(names@);
        let f = |x: Seq<char>| exists|i: int| 0 <= i < names@.len() && on@[i] && #[trigger] names@[i]@ == x;
        let od = online_declared(vs, views(online@));
        assert forall|x: Seq<char>| #[trigger] od.contains(x) <==> nm.to_set().filter(f).contains(x) by {
            if od.contains(x) {
                assert(nm.to_set().contains(x));
                let i = choose|i: int| 0 <= i < nm.len() && nm[i] == x;
                assert(on@[i]);
                assert(names@[i]@ == x);
            }
            if nm.to_set().filter(f).contains(x) {
                let i = choose|i: int| 0 <= i < names@.len() && on@[i] && #[trigger] names@[i]@ == x;
                assert(nm[i] == x);
            }
        }
        assert(od =~= nm.to_set().filter(f));
    }
    let groups = comps.len();
    let recs = recommendations(validators, groups);
    TopologyAnalysis {
        total_validators: names.len(),
        online_validators: online_count,
        partition_detected: groups > 1,
        components: comps,
        recommendations: recs,
    }
}


/// The declared validators that are not among `failed`.
pub open spec fn survivors(vs: Seq<ValidatorView>, failed: Seq<Seq<char>>) -> Set<Seq<char>> {
    declared(vs).filter(|x: Seq<char>| !failed.contains(x))
}

/// Analyzes the topology as if the `failed` validators were offline and
/// every other declared validator online: whether removing them would
/// split the network.
pub fn simulate_failures(validators: &[TopologyValidator], failed: &[String]) -> (r: TopologyAnalysis)
    ensures
        describes(r, validator_views(validators@), survivors(validator_views(validators@), views(failed@))),
{
    let ghost vs = validator_views(validators@);
    let mut online: Vec<String> = Vec::new();
    let mut k: usize = 0;
    while k < validators.len()
        invariant
            k <= validators@.len(),
            vs == validator_views(validators@),
            forall|x: Seq<char>| #[trigger] views(online@).contains(x) <==>
                (names_of(vs).take(k as int).contains(x) && !views(failed@).contains(x)),
        decreases validators@.len() - k,
    {
        let name = validators[k].name.as_str();
        let ghost before = views(online@);
        let ghost t0 = names_of(vs).take(k as int);
        let ghost t1 = names_of(vs).take(k + 1);
        proof {
            assert(names_of(vs)[k as int] == name@);
            assert(names_of(vs).take(k + 1) =~= names_of(vs).take(k as int).push(name@));
        }
        if !listed(failed, name) {
            online.push(owned(name));
            proof {
                assert(views(online@) =~= before.push(name@));
                assert forall|x: Seq<char>| #[trigger] views(online@).contains(x) <==>
                    (names_of(vs).take(k + 1).contains(x) && !views(failed@).contains(x)) by {
                    if before.contains(x) {
                        let w = choose|w: int| 0 <= w < before.len() && before[w] == x;
                        assert(views(online@)[w] == x);
                        assert(t0.contains(x));
                    }
                    if views(online@).contains(x) && x != name@ {
                        let w = choose|w: int| 0 <= w < views(online@).len() && views(online@)[w] == x;
                        assert(before[w] == x);
                        assert(before.contains(x));
                    }
                    if x == name@ {
                        assert(views(online@)[before.len() as int] == x);
                        assert(t1[k as int] == x);
                    }
                    if t1.contains(x) && x != name@ && !views(failed@).contains(x) {
                        let w = choose|w: int| 0 <= w < k + 1 && t1[w] == x;
                        assert(t0[w] == x);
                        assert(before.contains(x));
                        let w2 = choose|w2: int| 0 <= w2 < before.len() && before[w2] == x;
                        assert(views(online@)[w2] == x);
                    }
                    if names_of(vs).take(k as int).contains(x) {
                        let w = choose|w: int| 0 <= w < k && t0[w] == x;
                        assert(names_of(vs).take(k + 1)[w] == x);
                    }
                    if names_of(vs).take(k + 1).contains(x) && x != name@ {
                        let w = choose|w: int| 0 <= w < k + 1 && t1[w] == x;
                        assert(names_of(vs).take(k as int)[w] == x);
                    }
                }
            }
        } else {
            proof {
                assert forall|x: Seq<char>| #[trigger] views(online@).contains(x) <==>
                    (names_of(vs).take(k + 1).contains(x) && !views(failed@).contains(x)) by {
                    if names_of(vs).take(k as int).contains(x) {
                        let w = choose|w: int| 0 <= w < k && t0[w] == x;
                        assert(names_of(vs).take(k + 1)[w] == x);
                    }
                    if names_of(vs).take(k + 1).contains(x) && x != name@ {
                        let w = choose|w: int| 0 <= w < k + 1 && t1[w] == x;
                        assert(names_of(vs).take(k as int)[w] == x);
                    }
                }
            }
        }
        k += 1;
    }
    proof {
        assert(names_of(vs).take(validators@.len() as int) =~= names_of(vs));
        assert(online_declared(vs, views(online@)) =~= survivors(vs, views(failed@)));
    }
    analyze(validators, online.as_slice())
}

/// The phase of a topology with `total` declared validators, from whether
/// it is split and whether too few validators are online.
pub fn derive_phase(partition_detected: bool, below_min_online: bool, total: usize) -> (p: TopologyPhase)
    ensures
        p == (if total == 0 {
            TopologyPhase::Pending
        } else if partition_detected {
            TopologyPhase::Partitioned
        } else if below_min_online {
            TopologyPhase::Degraded
        } else {
            TopologyPhase::Healthy
        }),
{
    if total == 0 {
        return TopologyPhase::Pending;
    }
    if partition_detected {
        TopologyPhase::Partitioned
    } else if below_min_online {
        TopologyPhase::Degraded
    } else {
        TopologyPhase::Healthy
    }
}

/// Every online validator lies in exactly one group.
pub proof fn law_each_online_validator_in_one_group(r: TopologyAnalysis, vs: Seq<ValidatorView>, on: Set<Seq<char>>, x: Seq<char>)
    requires
        describes(r, vs, on),
        on.contains(x),
    ensures
        exists|k: int| 0 <= k < r.components@.len() && #[trigger] component_views(r.components@)[k].contains(x)
            && forall|k2: int| 0 <= k2 < r.components@.len() && #[trigger] component_views(r.components@)[k2].contains(x) ==> k2 == k,
{
    reveal(are_components);
    let cs = component_views(r.components@);
    let k = choose|k: int| 0 <= k < cs.len() && #[trigger] cs[k].contains(x);
    assert forall|k2: int| 0 <= k2 < r.components@.len() && #[trigger] cs[k2].contains(x) implies k2 == k by {}
}

/// When every two online validators are linked, the online validators form
/// a single group and no partition is reported.
pub proof fn law_full_mesh_is_one_group(r: TopologyAnalysis, vs: Seq<ValidatorView>, on: Set<Seq<char>>, x: Seq<char>)
    requires
        describes(r, vs, on),
        on.contains(x),
        forall|y: Seq<char>, z: Seq<char>| on.contains(y) && on.contains(z) && y != z ==> #[trigger] linked(vs, y, z),
    ensures
        r.components@.len() == 1,
        !r.partition_detected,
{
    reveal(are_components);
    let cs = component_views(r.components@);
    let k = choose|k: int| 0 <= k < cs.len() && #[trigger] cs[k].contains(x);
    assert forall|k2: int| 0 <= k2 < cs.len() implies #[trigger] cs[k2].len() > 0 && k2 == k by {
        assert(cs[k2].len() > 0);
        let y = cs[k2][0];
        assert(on.contains(y));
        assert(cs[k2].contains(y));
        if y != x {
            assert(linked(vs, x, y));
            assert(cs[k].contains(y));
        }
    }
    if cs.len() > 1 {
        assert(cs[0].len() > 0);
        assert(cs[1].len() > 0);
    }
}

/// Simulating more failures never leaves more validators online.
pub proof fn law_more_failures_fewer_online(
    r1: TopologyAnalysis,
    r2: TopologyAnalysis,
    vs: Seq<ValidatorView>,
    failed1: Seq<Seq<char>>,
    failed2: Seq<Seq<char>>,
)
    requires
        describes(r1, vs, survivors(vs, failed1)),
        describes(r2, vs, survivors(vs, failed2)),
        forall|x: Seq<char>| #[trigger] failed1.contains(x) ==> failed2.contains(x),
    ensures
        r2.online_validators <= r1.online_validators,
{
    let s1 = survivors(vs, failed1);
    let s2 = survivors(vs, failed2);
    assert(s2.subset_of(s1));
    assert(s1.finite()) by {
        assert(declared(vs).finite());
        vstd::set_lib::lemma_len_subset(s1, declared(vs));
    }
    vstd::set_lib::lemma_len_subset(s2, s1);
}


// ── The components are determined by their contract ────────────────────────

/// Component `c` comes before component `d` in the listing order.
pub open spec fn comp_before(c: Seq<Seq<char>>, d: Seq<Seq<char>>) -> bool {
    c.len() > d.len() || (c.len() == d.len() && str_lt(c[0], d[0]))
}

proof fn lemma_before_trans(a: Seq<Seq<char>>, b: Seq<Seq<char>>, c: Seq<Seq<char>>)
    requires
        comp_before(a, b),
        comp_before(b, c),
    ensures
        comp_before(a, c),
{
    if a.len() == b.len() && b.len() == c.len() {
        lemma_str_lt_transitive(a[0], b[0], c[0]);
    }
}

proof fn lemma_before_irrefl(c: Seq<Seq<char>>)
    ensures
        !comp_before(c, c),
{
    lemma_str_lt_irreflexive(c[0]);
}

proof fn lemma_listed_before(vs: Seq<ValidatorView>, on: Set<Seq<char>>, cs: Seq<Seq<Seq<char>>>, i: int, j: int)
    requires
        are_components(vs, on, cs),
        0 <= i < j < cs.len(),
    ensures
        comp_before(cs[i], cs[j]),
    decreases j - i,
{
    reveal(are_components);
    assert(comp_before(cs[j - 1], cs[j])) by {
        assert(cs[j - 1].len() > cs[j - 1 + 1].len()
            || (cs[j - 1].len() == cs[j - 1 + 1].len() && str_lt(cs[j - 1][0], cs[j - 1 + 1][0])));
    }
    if i < j - 1 {
        lemma_listed_before(vs, on, cs, i, j - 1);
        lemma_before_trans(cs[i], cs[j - 1], cs[j]);
    }
}

proof fn lemma_sorted_set_unique(a: Seq<Seq<char>>, b: Seq<Seq<char>>)
    requires
        strictly_sorted(a),
        strictly_sorted(b),
        a.to_set() == b.to_set(),
    ensures
        a == b,
    decreases a.len(),
{
    if a.len() == 0 {
        if b.len() > 0 {
            assert(b.to_set().contains(b[0]));
            assert(a.to_set().contains(b[0]));
        }
        assert(a =~= b);
    } else {
        assert(a.to_set().contains(a[0]));
        assert(b.to_set().contains(a[0]));
        assert(b.len() > 0);
        assert(b.to_set().contains(b[0]));
        assert(a.to_set().contains(b[0]));
        let m = choose|m: int| 0 <= m < b.len() && b[m] == a[0];
        let n = choose|n: int| 0 <= n < a.len() && a[n] == b[0];
        if a[0] != b[0] {
            assert(m > 0 && n > 0);
            assert(str_lt(b[0], b[m]));
            assert(str_lt(a[0], a[n]));
            lemma_str_lt_trichotomy(a[0], b[0]);
        }
        let a2 = a.drop_first();
        let b2 = b.drop_first();
        assert forall|x: Seq<char>| a2.to_set().contains(x) <==> b2.to_set().contains(x) by {
            if a2.contains(x) {
                let w = choose|w: int| 0 <= w < a2.len() && a2[w] == x;
                assert(a[w + 1] == x);
                assert(str_lt(a[0], a[w + 1]));
                lemma_str_lt_irreflexive(a[0]);
                assert(a.to_set().contains(x));
                assert(b.contains(x));
                let v = choose|v: int| 0 <= v < b.len() && b[v] == x;
                assert(v != 0);
                assert(b2[v - 1] == x);
            }
            if b2.contains(x) {
                let w = choose|w: int| 0 <= w < b2.len() && b2[w] == x;
                assert(b[w + 1] == x);
                assert(str_lt(b[0], b[w + 1]));
                lemma_str_lt_irreflexive(b[0]);
                assert(b.to_set().contains(x));
                assert(a.contains(x));
                let v = choose|v: int| 0 <= v < a.len() && a[v] == x;
                assert(v != 0);
                assert(a2[v - 1] == x);
            }
        }
        assert(a2.to_set() =~= b2.to_set());
        assert(strictly_sorted(a2)) by {
            assert forall|x: int, y: int| 0 <= x < y < a2.len() implies str_lt(#[trigger] a2[x], #[trigger] a2[y]) by {
                assert(str_lt(a[x + 1], a[y + 1]));
            }
        }
        assert(strictly_sorted(b2)) by {
            assert forall|x: int, y: int| 0 <= x < y < b2.len() implies str_lt(#[trigger] b2[x], #[trigger] b2[y]) by {
                assert(str_lt(b[x + 1], b[y + 1]));
            }
        }
        lemma_sorted_set_unique(a2, b2);
        assert(a =~= b) by {
            assert forall|x: int| 0 <= x < a.len() implies a[x] == b[x] by {
                if x > 0 {
                    assert(a[x] == a2[x - 1]);
                    assert(b[x] == b2[x - 1]);
                }
            }
        }
    }
}

proof fn lemma_order_stays(vs: Seq<ValidatorView>, on: Set<Seq<char>>, cs: Seq<Seq<Seq<char>>>, ord: Seq<Seq<char>>, k: int, t: int)
    requires
        are_components(vs, on, cs),
        connected_order(vs, ord),
        forall|u: int| 0 <= u < ord.len() ==> on.contains(#[trigger] ord[u]),
        0 <= k < cs.len(),
        ord.len() > 0,
        cs[k].contains(ord[0]),
        0 <= t < ord.len(),
    ensures
        cs[k].contains(ord[t]),
    decreases t,
{
    reveal(are_components);
    if t > 0 {
        assert(linked_earlier(vs, ord, t));
        let s = choose|s: int| 0 <= s < t && #[trigger] linked(vs, ord[s], ord[t]);
        lemma_order_stays(vs, on, cs, ord, k, s);
        assert(on.contains(ord[t]));
    }
}

proof fn lemma_component_within(vs: Seq<ValidatorView>, on: Set<Seq<char>>, cs1: Seq<Seq<Seq<char>>>, cs2: Seq<Seq<Seq<char>>>, i: int, j: int, x: Seq<char>)
    requires
        are_components(vs, on, cs1),
        are_components(vs, on, cs2),
        0 <= i < cs1.len(),
        0 <= j < cs2.len(),
        cs1[i].contains(x),
        cs2[j].contains(x),
    ensures
        forall|y: Seq<char>| cs1[i].contains(y) ==> cs2[j].contains(y),
{
    reveal(are_components);
    assert(has_connected_order(vs, cs1[i]));
    let ord = choose|ord: Seq<Seq<char>>| ord.to_set() == cs1[i].to_set() && #[trigger] connected_order(vs, ord);
    assert(cs1[i].len() > 0);
    assert(cs1[i].to_set().contains(cs1[i][0]));
    assert(ord.to_set().contains(cs1[i][0]));
    assert(ord.len() > 0);
    assert forall|u: int| 0 <= u < ord.len() implies on.contains(#[trigger] ord[u]) by {
        assert(ord.to_set().contains(ord[u]));
        assert(cs1[i].contains(ord[u]));
        let w = choose|w: int| 0 <= w < cs1[i].len() && cs1[i][w] == ord[u];
        assert(on.contains(cs1[i][w]));
    }
    assert(on.contains(ord[0]));
    let k = choose|k: int| 0 <= k < cs2.len() && #[trigger] cs2[k].contains(ord[0]);
    assert(ord.to_set().contains(x));
    let tx = choose|tx: int| 0 <= tx < ord.len() && ord[tx] == x;
    lemma_order_stays(vs, on, cs2, ord, k, tx);
    assert(cs2[k].contains(x));
    assert(k == j);
    assert forall|y: Seq<char>| cs1[i].contains(y) implies cs2[j].contains(y) by {
        assert(cs1[i].to_set().contains(y));
        assert(ord.to_set().contains(y));
        let ty = choose|ty: int| 0 <= ty < ord.len() && ord[ty] == y;
        lemma_order_stays(vs, on, cs2, ord, k, ty);
    }
}

proof fn lemma_same_component(vs: Seq<ValidatorView>, on: Set<Seq<char>>, cs1: Seq<Seq<Seq<char>>>, cs2: Seq<Seq<Seq<char>>>, i: int, j: int, x: Seq<char>)
    requires
        are_components(vs, on, cs1),
        are_components(vs, on, cs2),
        0 <= i < cs1.len(),
        0 <= j < cs2.len(),
        cs1[i].contains(x),
        cs2[j].contains(x),
    ensures
        cs1[i] == cs2[j],
{
    reveal(are_components);
    lemma_component_within(vs, on, cs1, cs2, i, j, x);
    lemma_component_within(vs, on, cs2, cs1, j, i, x);
    assert(cs1[i].to_set() =~= cs2[j].to_set());
    assert(cs1[i].len() > 0 && strictly_sorted(cs1[i]));
    assert(cs2[j].len() > 0 && strictly_sorted(cs2[j]));
    lemma_sorted_set_unique(cs1[i], cs2[j]);
}

proof fn lemma_drop_first_component(vs: Seq<ValidatorView>, on: Set<Seq<char>>, cs: Seq<Seq<Seq<char>>>)
    requires
        are_components(vs, on, cs),
        cs.len() > 0,
    ensures
        are_components(vs, on.difference(cs[0].to_set()), cs.drop_first()),
{
    reveal(are_components);
    let on2 = on.difference(cs[0].to_set());
    let r = cs.drop_first();
    assert forall|k: int| 0 <= k < r.len() implies #[trigger] r[k].len() > 0 && strictly_sorted(r[k]) by {
        assert(r[k] == cs[k + 1]);
        assert(cs[k + 1].len() > 0 && strictly_sorted(cs[k + 1]));
    }
    assert forall|k: int, t: int| 0 <= k < r.len() && 0 <= t < r[k].len() implies on2.contains(#[trigger] r[k][t]) by {
        assert(r[k] == cs[k + 1]);
        assert(on.contains(cs[k + 1][t]));
        assert(cs[k + 1].contains(cs[k + 1][t]));
        if cs[0].to_set().contains(r[k][t]) {
            assert(cs[0].contains(r[k][t]));
            assert(k + 1 == 0);
        }
    }
    assert forall|x: Seq<char>| #[trigger] on2.contains(x) implies exists|k: int| 0 <= k < r.len() && #[trigger] r[k].contains(x) by {
        assert(on.contains(x));
        let k = choose|k: int| 0 <= k < cs.len() && #[trigger] cs[k].contains(x);
        if k == 0 {
            assert(cs[0].to_set().contains(x));
        }
        assert(r[k - 1] == cs[k]);
    }
    assert forall|k1: int, k2: int, x: Seq<char>| 0 <= k1 < r.len() && 0 <= k2 < r.len() && #[trigger] r[k1].contains(x)
        && #[trigger] r[k2].contains(x) implies k1 == k2 by {
        assert(r[k1] == cs[k1 + 1]);
        assert(r[k2] == cs[k2 + 1]);
        assert(cs[k1 + 1].contains(x) && cs[k2 + 1].contains(x));
    }
    assert forall|k: int, x: Seq<char>, y: Seq<char>| 0 <= k < r.len() && #[trigger] r[k].contains(x) && on2.contains(y)
        && #[trigger] linked(vs, x, y) implies r[k].contains(y) by {
        assert(r[k] == cs[k + 1]);
        assert(cs[k + 1].contains(x));
        assert(on.contains(y));
    }
    assert forall|k: int| 0 <= k < r.len() implies #[trigger] has_connected_order(vs, r[k]) by {
        assert(r[k] == cs[k + 1]);
        assert(has_connected_order(vs, cs[k + 1]));
    }
    assert forall|k: int| 0 <= k < r.len() - 1 implies (#[trigger] r[k]).len() > r[k + 1].len()
        || (r[k].len() == r[k + 1].len() && str_lt(r[k][0], r[k + 1][0])) by {
        assert(r[k] == cs[k + 1]);
        assert(r[k + 1] == cs[k + 2]);
        assert((cs[k + 1]).len() > cs[k + 1 + 1].len()
            || (cs[k + 1].len() == cs[k + 1 + 1].len() && str_lt(cs[k + 1][0], cs[k + 1 + 1][0])));
    }
}

proof fn lemma_both_empty(vs: Seq<ValidatorView>, on: Set<Seq<char>>, cs1: Seq<Seq<Seq<char>>>, cs2: Seq<Seq<Seq<char>>>)
    requires
        are_components(vs, on, cs1),
        are_components(vs, on, cs2),
        cs1.len() == 0,
    ensures
        cs2.len() == 0,
{
    reveal(are_components);
    if cs2.len() > 0 {
        assert(cs2[0].len() > 0);
        assert(on.contains(cs2[0][0]));
        let k = choose|k: int| 0 <= k < cs1.len() && #[trigger] cs1[k].contains(cs2[0][0]);
    }
}

proof fn lemma_first_components_equal(vs: Seq<ValidatorView>, on: Set<Seq<char>>, cs1: Seq<Seq<Seq<char>>>, cs2: Seq<Seq<Seq<char>>>)
    requires
        are_components(vs, on, cs1),
        are_components(vs, on, cs2),
        cs1.len() > 0,
        cs2.len() > 0,
    ensures
        cs1[0] == cs2[0],
{
    reveal(are_components);
    let c = cs1[0];
    let d = cs2[0];
    assert(c.len() > 0 && d.len() > 0);
    assert(on.contains(d[0]));
    assert(d.contains(d[0]));
    let i = choose|i: int| 0 <= i < cs1.len() && #[trigger] cs1[i].contains(d[0]);
    lemma_same_component(vs, on, cs1, cs2, i, 0, d[0]);
    assert(on.contains(c[0]));
    assert(c.contains(c[0]));
    let j = choose|j: int| 0 <= j < cs2.len() && #[trigger] cs2[j].contains(c[0]);
    lemma_same_component(vs, on, cs1, cs2, 0, j, c[0]);
    if i > 0 && j > 0 {
        lemma_listed_before(vs, on, cs1, 0, i);
        lemma_listed_before(vs, on, cs2, 0, j);
        lemma_before_trans(c, d, c);
        lemma_before_irrefl(c);
    }
}

/// The components of a set of validators are determined by it: any two
/// listings that meet [`are_components`] for the same links and online
/// validators are the same, so the analysis is deterministic.
pub proof fn law_components_are_unique(vs: Seq<ValidatorView>, on: Set<Seq<char>>, cs1: Seq<Seq<Seq<char>>>, cs2: Seq<Seq<Seq<char>>>)
    requires
        are_components(vs, on, cs1),
        are_components(vs, on, cs2),
    ensures
        cs1 == cs2,
    decreases cs1.len() + cs2.len(),
{
    if cs1.len() == 0 {
        lemma_both_empty(vs, on, cs1, cs2);
        assert(cs1 =~= cs2);
    } else if cs2.len() == 0 {
        lemma_both_empty(vs, on, cs2, cs1);
    } else {
        lemma_first_components_equal(vs, on, cs1, cs2);
        lemma_drop_first_component(vs, on, cs1);
        lemma_drop_first_component(vs, on, cs2);
        let on2 = on.difference(cs1[0].to_set());
        assert(on2 == on.difference(cs2[0].to_set()));
        law_components_are_unique(vs, on2, cs1.drop_first(), cs2.drop_first());
        assert(cs1 =~= cs2) by {
            assert forall|x: int| 0 <= x < cs1.len() implies cs1[x] == cs2[x] by {
                if x > 0 {
                    assert(cs1[x] == cs1.drop_first()[x - 1]);
                    assert(cs2[x] == cs2.drop_first()[x - 1]);
                }
            }
        }
    }
}

/// Simulating no failures is analyzing with every declared validator
/// online: both give the same counts, groups and recommendations.
pub proof fn law_no_failures_is_all_online(vs: Seq<ValidatorView>, r1: TopologyAnalysis, r2: TopologyAnalysis)
    requires
        describes(r1, vs, survivors(vs, seq![])),
        describes(r2, vs, online_declared(vs, names_of(vs))),
    ensures
        r1.total_validators == r2.total_validators,
        r1.online_validators == r2.online_validators,
        component_views(r1.components@) == component_views(r2.components@),
        r1.partition_detected == r2.partition_detected,
        views(r1.recommendations@) == views(r2.recommendations@),
{
    let empty: Seq<Seq<char>> = seq![];
    assert(survivors(vs, empty) =~= online_declared(vs, names_of(vs))) by {
        assert forall|x: Seq<char>| survivors(vs, empty).contains(x) <==> online_declared(vs, names_of(vs)).contains(x) by {
            if declared(vs).contains(x) {
                assert(names_of(vs).to_set().contains(x));
            }
        }
    }
    law_components_are_unique(vs, survivors(vs, empty), component_views(r1.components@), component_views(r2.components@));
    assert(r1.components@.len() == component_views(r1.components@).len());
    assert(r2.components@.len() == component_views(r2.components@).len());
}

} // verus!
