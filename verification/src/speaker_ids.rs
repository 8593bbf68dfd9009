//! Speaker ids for clustered segments: clusters are numbered from one in the
//! order of their earliest member, and each segment takes its cluster's number.
use vstd::prelude::*;

verus! {

/// The smallest member of a non-empty cluster.
pub open spec fn min_member(c: Seq<usize>) -> usize
    recommends
        c.len() > 0,
    decreases c.len(),
{
    if c.len() <= 1 {
        c[0]
    } else {
        let m = min_member(c.drop_last());
        if c.last() < m { c.last() } else { m }
    }
}

/// Cluster `k` comes before cluster `j` when its earliest member is earlier,
/// or when both start at the same member and `k` is listed first.
pub open spec fn comes_before(mins: Seq<usize>, k: int, j: int) -> bool {
    mins[k] < mins[j] || (mins[k] == mins[j] && k < j)
}

/// How many of the first `m` clusters come before cluster `j`.
pub open spec fn count_before(mins: Seq<usize>, j: int, m: int) -> nat
    decreases m,
{
    if m <= 0 {
        0
    } else {
        count_before(mins, j, m - 1) + if comes_before(mins, m - 1, j) { 1nat } else { 0nat }
    }
}

/// Position of cluster `j` once the clusters are ordered by earliest member.
pub open spec fn rank(mins: Seq<usize>, j: int) -> nat {
    count_before(mins, j, mins.len() as int)
}

/// The earliest member of each cluster.
pub open spec fn cluster_mins(clusters: Seq<Seq<usize>>) -> Seq<usize> {
    Seq::new(clusters.len(), |c: int| min_member(clusters[c]))
}

/// One more than the highest rank among the first `upto` clusters that hold
/// `item`, or zero when none of them does.
pub open spec fn top_rank(clusters: Seq<Seq<usize>>, item: usize, upto: int) -> nat
    decreases upto,
{
    if upto <= 0 {
        0
    } else {
        let below = top_rank(clusters, item, upto - 1);
        let here = rank(cluster_mins(clusters), upto - 1) + 1;
        if clusters[upto - 1].contains(item) && here > below {
            here
        } else {
            below
        }
    }
}

/// The id of `item`: one plus the position, in order of earliest member, of the
/// last cluster in that order that holds it; zero when no cluster holds it.
pub open spec fn speaker_id(clusters: Seq<Seq<usize>>, item: usize) -> u32 {
    top_rank(clusters, item, clusters.len() as int) as u32
}

/// The members of each cluster.
pub open spec fn cluster_views(clusters: Seq<Vec<usize>>) -> Seq<Seq<usize>> {
    Seq::new(clusters.len(), |c: int| clusters[c]@)
}

/// The earliest member of a non-empty cluster.
fn cluster_min(c: &Vec<usize>) -> (m: usize)
    requires
        c.len() > 0,
    ensures
        m == min_member(c@),
{
    let mut m = c[0];
    let mut i: usize = 1;
    assert(c@.take(1).drop_last() =~= Seq::<usize>::empty());
    while i < c.len()
        invariant
            1 <= i <= c.len(),
            m == min_member(c@.take(i as int)),
        decreases c.len() - i,
    {
        assert(c@.take(i + 1).drop_last() =~= c@.take(i as int));
        if c[i] < m {
            m = c[i];
        }
        i = i + 1;
    }
    assert(c@.take(c.len() as int) =~= c@);
    m
}

/// The position of every cluster once they are ordered by earliest member.
fn ranks(mins: &Vec<usize>) -> (r: Vec<usize>)
    ensures
        r.len() == mins.len(),
        forall|j: int| 0 <= j < mins.len() ==> #[trigger] r[j] == rank(mins@, j),
        forall|j: int| 0 <= j < mins.len() ==> #[trigger] r[j] < mins.len(),
{
    let mut r: Vec<usize> = Vec::new();
    let mut j: usize = 0;
    while j < mins.len()
        invariant
            j <= mins.len(),
            r.len() == j,
            forall|q: int| 0 <= q < j ==> #[trigger] r[q] == rank(mins@, q),
            forall|q: int| 0 <= q < j ==> #[trigger] r[q] < mins.len(),
        decreases mins.len() - j,
    {
        let mut count: usize = 0;
        let mut k: usize = 0;
        while k < mins.len()
            invariant
                j < mins.len(),
                k <= mins.len(),
                count == count_before(mins@, j as int, k as int),
                count <= k,
                k > j ==> count < k,
            decreases mins.len() - k,
        {
            if mins[k] < mins[j] || (mins[k] == mins[j] && k < j) {
                count = count + 1;
            }
            k = k + 1;
        }
        r.push(count);
        j = j + 1;
    }
    r
}

/// Numbers the clusters from one in the order of their earliest member and
/// gives each of the `n` items the number of its cluster (zero when no cluster
/// holds it; with overlapping clusters, the number that comes last in that order).
pub fn order_ids(clusters: &Vec<Vec<usize>>, n: usize) -> (ids: Vec<u32>)
    requires
        forall|c: int| 0 <= c < clusters.len() ==> #[trigger] clusters[c].len() > 0,
        forall|c: int, m: int| 0 <= c < clusters.len() && 0 <= m < clusters[c].len() ==> #[trigger] clusters[c][m] < n,
    ensures
        ids.len() == n,
        forall|i: int| 0 <= i < n ==> #[trigger] ids[i] == speaker_id(cluster_views(clusters@), i as usize),
{
    let ghost cs = cluster_views(clusters@);
    let mut mins: Vec<usize> = Vec::new();
    let mut c: usize = 0;
    while c < clusters.len()
        invariant
            c <= clusters.len(),
            cs == cluster_views(clusters@),
            forall|q: int| 0 <= q < clusters.len() ==> #[trigger] clusters[q].len() > 0,
            mins@ =~= cluster_mins(cs).take(c as int),
        decreases clusters.len() - c,
    {
        mins.push(cluster_min(&clusters[c]));
        c = c + 1;
    }
    assert(mins@ =~= cluster_mins(cs));
    let rk = ranks(&mins);
    let mut top: Vec<usize> = Vec::new();
    let mut i: usize = 0;
    while i < n
        invariant
            i <= n,
            top.len() == i,
            forall|q: int| 0 <= q < i ==> #[trigger] top[q] == 0,
        decreases n - i,
    {
        top.push(0);
        i = i + 1;
    }
    let mut c: usize = 0;
    while c < clusters.len()
        invariant
            c <= clusters.len(),
            cs == cluster_views(clusters@),
            mins@ == cluster_mins(cs),
            rk.len() == mins.len(),
            mins.len() == clusters.len(),
            forall|j: int| 0 <= j < mins.len() ==> #[trigger] rk[j] == rank(mins@, j),
            forall|j: int| 0 <= j < mins.len() ==> #[trigger] rk[j] < mins.len(),
            forall|q: int, m: int| 0 <= q < clusters.len() && 0 <= m < clusters[q].len() ==> #[trigger] clusters[q][m] < n,
            top.len() == n,
            forall|it: int| 0 <= it < n ==> #[trigger] top[it] == top_rank(cs, it as usize, c as int),
        decreases clusters.len() - c,
    {
        let members = &clusters[c];
        let here = rk[c] + 1;
        let mut m: usize = 0;
        while m < members.len()
            invariant
                c < clusters.len(),
                m <= members.len(),
                members@ == cs[c as int],
                cs == cluster_views(clusters@),
                here == rank(mins@, c as int) + 1,
                forall|q: int| 0 <= q < members.len() ==> #[trigger] members[q] < n,
                top.len() == n,
                forall|it: int| 0 <= it < n ==> #[trigger] top[it] == if members@.take(m as int).contains(it as usize)
                    && here > top_rank(cs, it as usize, c as int) {
                    here as nat
                } else {
                    top_rank(cs, it as usize, c as int)
                },
            decreases members.len() - m,
        {
            let it = members[m];
            let ghost old_top = top@;
            if here > top[it] {
                top.set(it, here);
            }
            proof {
                assert(members@.take(m + 1) =~= members@.take(m as int).push(it));
                assert forall|x: int| 0 <= x < n implies #[trigger] top[x] == if members@.take(m + 1).contains(x as usize)
                    && here > top_rank(cs, x as usize, c as int) {
                    here as nat
                } else {
                    top_rank(cs, x as usize, c as int)
                } by {
                    assert(old_top[x] == if members@.take(m as int).contains(x as usize) && here > top_rank(cs, x as usize, c as int) {
                        here as nat
                    } else {
                        top_rank(cs, x as usize, c as int)
                    });
                    if x == it as int {
                        assert(members@.take(m + 1).contains(x as usize)) by {
                            assert(members@.take(m + 1)[m as int] == it);
                        }
                    } else {
                        assert(top[x] == old_top[x]);
                        assert(members@.take(m + 1).contains(x as usize) == members@.take(m as int).contains(x as usize)) by {
                            if members@.take(m + 1).contains(x as usize) {
                                let w = choose|w: int| 0 <= w < m + 1 && #[trigger] members@.take(m + 1)[w] == x as usize;
                                assert(w < m);
                                assert(members@.take(m as int)[w] == x as usize);
                            }
                            if members@.take(m as int).contains(x as usize) {
                                let w = choose|w: int| 0 <= w < m && #[trigger] members@.take(m as int)[w] == x as usize;
                                assert(members@.take(m + 1)[w] == x as usize);
                            }
                        }
                    }
                }
            }
            m = m + 1;
        }
        assert(members@.take(members.len() as int) =~= members@);
        assert forall|it: int| 0 <= it < n implies #[trigger] top[it] == top_rank(cs, it as usize, c + 1) by {
            assert(top_rank(cs, it as usize, c + 1) == if cs[c as int].contains(it as usize) && here > top_rank(cs, it as usize, c as int) {
                here as nat
            } else {
                top_rank(cs, it as usize, c as int)
            });
        }
        c = c + 1;
    }
    let mut ids: Vec<u32> = Vec::new();
    let mut i: usize = 0;
    while i < n
        invariant
            i <= n,
            top.len() == n,
            cs == cluster_views(clusters@),
            forall|it: int| 0 <= it < n ==> #[trigger] top[it] == top_rank(cs, it as usize, clusters.len() as int),
            ids.len() == i,
            forall|q: int| 0 <= q < i ==> #[trigger] ids[q] == speaker_id(cs, q as usize),
        decreases n - i,
    {
        ids.push(#[verifier::truncate] (top[i] as u32));
        i = i + 1;
    }
    ids
}

/// Whatever comes before `k` comes before `j` too, and `k` itself comes before `j`:
/// among the first `m` clusters, more come before `j` than before `k`, by one
/// once `k` is among them.
proof fn lemma_count_before_grows(mins: Seq<usize>, k: int, j: int, m: int)
    requires
        0 <= k < mins.len(),
        0 <= j < mins.len(),
        0 <= m <= mins.len(),
        comes_before(mins, k, j),
    ensures
        count_before(mins, k, m) + (if m > k { 1int } else { 0int }) <= count_before(mins, j, m),
    decreases m,
{
    if m > 0 {
        lemma_count_before_grows(mins, k, j, m - 1);
    }
}

/// Fewer than `m` of the first `m` clusters come before `j` once `j` is among
/// them: no cluster comes before itself.
proof fn lemma_count_before_bound(mins: Seq<usize>, j: int, m: int)
    requires
        0 <= j < mins.len(),
        0 <= m <= mins.len(),
    ensures
        count_before(mins, j, m) + (if m > j { 1int } else { 0int }) <= m,
    decreases m,
{
    if m > 0 {
        lemma_count_before_bound(mins, j, m - 1);
    }
}

/// Ordering the clusters by earliest member puts them at distinct positions
/// below their number, and a cluster whose earliest member is earlier comes
/// first.
pub proof fn lemma_ranks_order(mins: Seq<usize>, j: int, k: int)
    requires
        0 <= j < mins.len(),
        0 <= k < mins.len(),
    ensures
        rank(mins, j) < mins.len(),
        mins[k] < mins[j] ==> rank(mins, k) < rank(mins, j),
        k < j && mins[k] == mins[j] ==> rank(mins, k) < rank(mins, j),
        j != k ==> rank(mins, j) != rank(mins, k),
{
    lemma_count_before_bound(mins, j, mins.len() as int);
    if comes_before(mins, k, j) {
        lemma_count_before_grows(mins, k, j, mins.len() as int);
    }
    if comes_before(mins, j, k) {
        lemma_count_before_grows(mins, j, k, mins.len() as int);
    }
}

/// No item lies in two of the clusters.
pub open spec fn disjoint(clusters: Seq<Seq<usize>>) -> bool {
    forall|a: int, b: int, item: usize|
        0 <= a < clusters.len() && 0 <= b < clusters.len() && a != b && #[trigger] clusters[a].contains(item)
            ==> !#[trigger] clusters[b].contains(item)
}

/// With disjoint clusters, an item's id is one plus the position of its own
/// cluster in order of earliest member, or zero when no cluster holds it.
pub proof fn lemma_disjoint_ids(clusters: Seq<Seq<usize>>, item: usize, c: int)
    requires
        disjoint(clusters),
        0 <= c < clusters.len(),
    ensures
        clusters[c].contains(item) ==> top_rank(clusters, item, clusters.len() as int) == rank(cluster_mins(clusters), c) + 1,
        (forall|q: int| 0 <= q < clusters.len() ==> !#[trigger] clusters[q].contains(item))
            ==> top_rank(clusters, item, clusters.len() as int) == 0,
{
    if clusters[c].contains(item) {
        lemma_top_rank_disjoint(clusters, item, c, clusters.len() as int);
    }
    if forall|q: int| 0 <= q < clusters.len() ==> !#[trigger] clusters[q].contains(item) {
        lemma_top_rank_absent(clusters, item, clusters.len() as int);
    }
}

/// With disjoint clusters, the first `upto` clusters give `item` the id of
/// its own cluster `c` once `c` is among them, and zero before.
proof fn lemma_top_rank_disjoint(clusters: Seq<Seq<usize>>, item: usize, c: int, upto: int)
    requires
        disjoint(clusters),
        0 <= c < clusters.len(),
        0 <= upto <= clusters.len(),
        clusters[c].contains(item),
    ensures
        top_rank(clusters, item, upto) == if upto > c { rank(cluster_mins(clusters), c) + 1 } else { 0 },
    decreases upto,
{
    if upto > 0 {
        lemma_top_rank_disjoint(clusters, item, c, upto - 1);
        if upto - 1 != c {
            assert(!clusters[upto - 1].contains(item));
        }
    }
}

/// An item that no cluster holds gets zero from any prefix of the clusters.
proof fn lemma_top_rank_absent(clusters: Seq<Seq<usize>>, item: usize, upto: int)
    requires
        0 <= upto <= clusters.len(),
        forall|q: int| 0 <= q < clusters.len() ==> !#[trigger] clusters[q].contains(item),
    ensures
        top_rank(clusters, item, upto) == 0,
    decreases upto,
{
    if upto > 0 {
        lemma_top_rank_absent(clusters, item, upto - 1);
        assert(!clusters[upto - 1].contains(item));
    }
}

/// For disjoint clusters, items of one cluster share its id, items of
/// different clusters get different ids, every id of a clustered item lies in
/// `1..=clusters.len()`, and a cluster that starts earlier gets the smaller id.
pub proof fn lemma_order_ids_laws(clusters: Seq<Seq<usize>>, x: usize, a: int, y: usize, b: int)
    requires
        disjoint(clusters),
        clusters.len() <= u32::MAX,
        forall|c: int| 0 <= c < clusters.len() ==> #[trigger] clusters[c].len() > 0,
        0 <= a < clusters.len(),
        0 <= b < clusters.len(),
        clusters[a].contains(x),
        clusters[b].contains(y),
    ensures
        1 <= speaker_id(clusters, x) <= clusters.len(),
        a == b ==> speaker_id(clusters, x) == speaker_id(clusters, y),
        a != b ==> speaker_id(clusters, x) != speaker_id(clusters, y),
        min_member(clusters[a]) < min_member(clusters[b]) ==> speaker_id(clusters, x) < speaker_id(clusters, y),
{
    let mins = cluster_mins(clusters);
    lemma_disjoint_ids(clusters, x, a);
    lemma_disjoint_ids(clusters, y, b);
    lemma_ranks_order(mins, a, b);
    lemma_ranks_order(mins, b, a);
}

/// The key of a non-empty cluster is its least member: it is one of the
/// members, and no member is smaller.
pub proof fn lemma_min_member(c: Seq<usize>)
    requires
        c.len() > 0,
    ensures
        c.contains(min_member(c)),
        forall|i: int| 0 <= i < c.len() ==> min_member(c) <= #[trigger] c[i],
    decreases c.len(),
{
    if c.len() > 1 {
        let p = c.drop_last();
        lemma_min_member(p);
        let w = choose|w: int| 0 <= w < p.len() && #[trigger] p[w] == min_member(p);
        assert(c[w] == min_member(p));
        assert forall|i: int| 0 <= i < c.len() implies min_member(c) <= #[trigger] c[i] by {
            if i < c.len() - 1 {
                assert(c[i] == p[i]);
            }
        }
        if c.last() < min_member(p) {
            assert(c[c.len() - 1] == c.last());
        }
    } else {
        assert(c[0] == min_member(c));
    }
}

/// No cluster comes before `j` when none has an earlier key and none listed
/// before it shares its key.
proof fn lemma_count_before_none(mins: Seq<usize>, j: int, m: int)
    requires
        0 <= j < mins.len(),
        0 <= m <= mins.len(),
        forall|k: int| 0 <= k < mins.len() ==> !comes_before(mins, k, j),
    ensures
        count_before(mins, j, m) == 0,
    decreases m,
{
    if m > 0 {
        lemma_count_before_none(mins, j, m - 1);
    }
}

/// With disjoint non-empty clusters, the cluster that holds a segment no later
/// than every clustered segment is speaker 1, and so are all its segments.
pub proof fn lemma_earliest_is_first(clusters: Seq<Seq<usize>>, a: int, x: usize)
    requires
        disjoint(clusters),
        forall|c: int| 0 <= c < clusters.len() ==> #[trigger] clusters[c].len() > 0,
        0 <= a < clusters.len(),
        clusters[a].contains(x),
        forall|c: int, m: int| 0 <= c < clusters.len() && 0 <= m < clusters[c].len() ==> x <= #[trigger] clusters[c][m],
    ensures
        forall|y: usize| clusters[a].contains(y) ==> speaker_id(clusters, y) == 1,
{
    let mins = cluster_mins(clusters);
    lemma_min_member(clusters[a]);
    let w = choose|w: int| 0 <= w < clusters[a].len() && #[trigger] clusters[a][w] == x;
    assert(mins[a] == x);
    assert forall|k: int| 0 <= k < mins.len() implies !comes_before(mins, k, a) by {
        lemma_min_member(clusters[k]);
        let v = choose|v: int| 0 <= v < clusters[k].len() && #[trigger] clusters[k][v] == min_member(clusters[k]);
        assert(x <= clusters[k][v]);
        if k != a && mins[k] == x {
            assert(clusters[k].contains(x));
        }
    }
    lemma_count_before_none(mins, a, mins.len() as int);
    assert forall|y: usize| clusters[a].contains(y) implies speaker_id(clusters, y) == 1 by {
        lemma_disjoint_ids(clusters, y, a);
    }
}

} // verus!
