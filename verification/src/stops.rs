use vstd::prelude::*;

verus! {

/// Where a gradient stop comes from.
#[derive(Clone, Copy, Debug, PartialEq, Eq, Structural)]
pub enum StopSource {
    /// The start colour, placed at the start of the axis.
    Start,
    /// Optional stop number `i` (counted from 0).
    Mid(usize),
    /// The end colour, placed at the end of the axis.
    End,
}

/// A gradient stop: its position along the axis, as an order key, and
/// where its colour comes from.  Keys are compared exactly as the positions
/// they stand for.
#[derive(Clone, Copy, Debug, PartialEq, Eq, Structural)]
pub struct StopEntry {
    pub key: u32,
    pub source: StopSource,
}

/// The keys of a list of stops, in list order.
pub open spec fn stop_keys(stops: Seq<StopEntry>) -> Seq<u32> {
    stops.map_values(|s: StopEntry| s.key)
}

/// The enabled optional stops among the first `n` slots, in slot order.
pub open spec fn enabled_mids(mids: Seq<Option<u32>>, n: nat) -> Seq<StopEntry>
    decreases n,
{
    if n == 0 {
        Seq::empty()
    } else {
        let rest = enabled_mids(mids, (n - 1) as nat);
        match mids[n - 1] {
            Some(k) => rest.push(StopEntry { key: k, source: StopSource::Mid((n - 1) as usize) }),
            None => rest,
        }
    }
}

/// The stops before sorting: the start stop, then the enabled optional
/// stops in slot order, then the end stop.
pub open spec fn collected_stops(start_key: u32, mids: Seq<Option<u32>>, end_key: u32) -> Seq<StopEntry> {
    seq![StopEntry { key: start_key, source: StopSource::Start }]
        + enabled_mids(mids, mids.len())
        + seq![StopEntry { key: end_key, source: StopSource::End }]
}

proof fn lemma_enabled_mids_facts(mids: Seq<Option<u32>>, n: nat)
    requires
        n <= mids.len(),
        mids.len() <= usize::MAX,
    ensures
        enabled_mids(mids, n).len() == mids.take(n as int).filter(|o: Option<u32>| o is Some).len(),
        forall|i: int|
            0 <= i < n && #[trigger] mids[i] is Some ==> enabled_mids(mids, n).contains(
                StopEntry { key: mids[i]->0, source: StopSource::Mid(i as usize) },
            ),
        forall|k: int|
            0 <= k < enabled_mids(mids, n).len() ==> (#[trigger] enabled_mids(mids, n)[k]).source is Mid
                && (enabled_mids(mids, n)[k].source->0 as int) < n && mids[enabled_mids(
                mids,
                n,
            )[k].source->0 as int] == Some(enabled_mids(mids, n)[k].key),
    decreases n,
{
    let pred = |o: Option<u32>| o is Some;
    if n == 0 {
        assert(mids.take(0) =~= Seq::<Option<u32>>::empty());
        reveal(Seq::filter);
    } else {
        let m = (n - 1) as nat;
        lemma_enabled_mids_facts(mids, m);
        assert(mids.take(n as int) =~= mids.take(m as int).push(mids[m as int]));
        mids.take(m as int).lemma_filter_push(mids[m as int], pred);
        let rest = enabled_mids(mids, m);
        let cur = enabled_mids(mids, n);
        assert forall|i: int| 0 <= i < n && #[trigger] mids[i] is Some implies cur.contains(
            StopEntry { key: mids[i]->0, source: StopSource::Mid(i as usize) },
        ) by {
            let e = StopEntry { key: mids[i]->0, source: StopSource::Mid(i as usize) };
            if i < m {
                assert(rest.contains(e));
                let w = choose|w: int| 0 <= w < rest.len() && rest[w] == e;
                assert(cur[w] == e);
            } else {
                assert(cur[cur.len() - 1] == e);
            }
        }
        assert forall|k: int| 0 <= k < cur.len() implies (#[trigger] cur[k]).source is Mid
            && (cur[k].source->0 as int) < n && mids[cur[k].source->0 as int] == Some(cur[k].key) by {
            if k < rest.len() {
                assert(cur[k] == rest[k]);
            }
        }
    }
}

/// Gathers the stops of a gradient: the start stop, every optional stop
/// whose slot holds `Some(key)`, and the end stop.
pub fn collect_stops(start_key: u32, mids: &[Option<u32>], end_key: u32) -> (stops: Vec<StopEntry>)
    ensures
        stops@ == collected_stops(start_key, mids@, end_key),
        stops@.len() == 2 + mids@.filter(|o: Option<u32>| o is Some).len(),
        stops@[0] == (StopEntry { key: start_key, source: StopSource::Start }),
        stops@.last() == (StopEntry { key: end_key, source: StopSource::End }),
        forall|i: int|
            0 <= i < mids@.len() && #[trigger] mids@[i] is Some ==> stops@.contains(
                StopEntry { key: mids@[i]->0, source: StopSource::Mid(i as usize) },
            ),
        forall|k: int|
            0 < k < stops@.len() - 1 ==> (#[trigger] stops@[k]).source is Mid && (stops@[k].source->0
                as int) < mids@.len() && mids@[stops@[k].source->0 as int] == Some(stops@[k].key),
{
    let mut stops: Vec<StopEntry> = Vec::new();
    stops.push(StopEntry { key: start_key, source: StopSource::Start });
    let n = mids.len();
    let mut i: usize = 0;
    while i < n
        invariant
            i <= n,
            n == mids@.len(),
            stops@ == seq![StopEntry { key: start_key, source: StopSource::Start }] + enabled_mids(
                mids@,
                i as nat,
            ),
        decreases n - i,
    {
        match mids[i] {
            Some(k) => {
                stops.push(StopEntry { key: k, source: StopSource::Mid(i) });
            },
            None => {},
        }
        proof {
            assert(enabled_mids(mids@, (i + 1) as nat) == match mids@[i as int] {
                Some(k) => enabled_mids(mids@, i as nat).push(
                    StopEntry { key: k, source: StopSource::Mid(i) },
                ),
                None => enabled_mids(mids@, i as nat),
            });
        }
        i += 1;
    }
    stops.push(StopEntry { key: end_key, source: StopSource::End });
    proof {
        lemma_collected_stops_facts(start_key, mids@, end_key);
    }
    stops
}

/// The collected stops are the start stop, one stop for every enabled
/// optional slot (with that slot's key and number) and nothing else, and the
/// end stop.
pub proof fn lemma_collected_stops_facts(start_key: u32, mids: Seq<Option<u32>>, end_key: u32)
    requires
        mids.len() <= usize::MAX,
    ensures
        collected_stops(start_key, mids, end_key).len() == 2 + mids.filter(|o: Option<u32>| o is Some).len(),
        collected_stops(start_key, mids, end_key)[0] == (StopEntry { key: start_key, source: StopSource::Start }),
        collected_stops(start_key, mids, end_key).last() == (StopEntry { key: end_key, source: StopSource::End }),
        forall|i: int|
            0 <= i < mids.len() && #[trigger] mids[i] is Some ==> collected_stops(start_key, mids, end_key).contains(
                StopEntry { key: mids[i]->0, source: StopSource::Mid(i as usize) },
            ),
        forall|k: int|
            0 < k < collected_stops(start_key, mids, end_key).len() - 1 ==> (#[trigger] collected_stops(
                start_key,
                mids,
                end_key,
            )[k]).source is Mid && (collected_stops(start_key, mids, end_key)[k].source->0 as int)
                < mids.len() && mids[collected_stops(start_key, mids, end_key)[k].source->0 as int] == Some(
                collected_stops(start_key, mids, end_key)[k].key,
            ),
{
    let middle = enabled_mids(mids, mids.len());
    let all = collected_stops(start_key, mids, end_key);
    lemma_enabled_mids_facts(mids, mids.len());
    assert(mids.take(mids.len() as int) =~= mids);
    assert forall|i: int| 0 <= i < mids.len() && #[trigger] mids[i] is Some implies all.contains(
        StopEntry { key: mids[i]->0, source: StopSource::Mid(i as usize) },
    ) by {
        let e = StopEntry { key: mids[i]->0, source: StopSource::Mid(i as usize) };
        assert(middle.contains(e));
        let w = choose|w: int| 0 <= w < middle.len() && middle[w] == e;
        assert(all[w + 1] == e);
    }
    assert forall|k: int| 0 < k < all.len() - 1 implies (#[trigger] all[k]).source is Mid && (
    all[k].source->0 as int) < mids.len() && mids[all[k].source->0 as int] == Some(all[k].key) by {
        assert(all[k] == middle[k - 1]);
    }
}

/// `a` comes before `b` when its key is smaller, or when the keys are equal
/// and `a` stands earlier in the list.
pub open spec fn before(keys: Seq<u32>, a: int, b: int) -> bool {
    keys[a] < keys[b] || (keys[a] == keys[b] && a < b)
}

/// `order` lists every index of `keys` exactly once, by increasing key, and
/// indices with equal keys in their original order: a stable sort.
pub open spec fn is_stable_order(keys: Seq<u32>, order: Seq<usize>) -> bool {
    &&& order.len() == keys.len()
    &&& forall|i: int| 0 <= i < order.len() ==> #[trigger] order[i] < keys.len()
    &&& forall|k: int| 0 <= k < keys.len() ==> #[trigger] order.contains(k as usize)
    &&& forall|i: int, j: int|
        0 <= i < j < order.len() ==> before(keys, #[trigger] order[i] as int, #[trigger] order[j] as int)
}

proof fn lemma_insert_keeps_order(keys: Seq<u32>, old: Seq<usize>, pos: int, i: usize)
    requires
        i < keys.len(),
        0 <= pos <= old.len(),
        forall|q: int| 0 <= q < old.len() ==> #[trigger] old[q] < i,
        forall|k: int| 0 <= k < i ==> #[trigger] old.contains(k as usize),
        forall|a: int, b: int|
            0 <= a < b < old.len() ==> before(keys, #[trigger] old[a] as int, #[trigger] old[b] as int),
        forall|q: int| 0 <= q < pos ==> keys[#[trigger] old[q] as int] <= keys[i as int],
        pos < old.len() ==> keys[old[pos] as int] > keys[i as int],
    ensures
        old.insert(pos, i).len() == old.len() + 1,
        forall|q: int| 0 <= q < old.len() + 1 ==> #[trigger] old.insert(pos, i)[q] <= i,
        forall|k: int| 0 <= k <= i ==> #[trigger] old.insert(pos, i).contains(k as usize),
        forall|a: int, b: int|
            0 <= a < b < old.len() + 1 ==> before(
                keys,
                #[trigger] old.insert(pos, i)[a] as int,
                #[trigger] old.insert(pos, i)[b] as int,
            ),
{
    let new = old.insert(pos, i);
    old.insert_ensures(pos, i);
    assert forall|q: int| 0 <= q < old.len() + 1 implies #[trigger] new[q] <= i by {
        if q > pos {
            assert(new[q] == old[q - 1]);
        }
    }
    assert forall|k: int| 0 <= k <= i implies #[trigger] new.contains(k as usize) by {
        if k == i {
            assert(new[pos] == i);
        } else {
            assert(old.contains(k as usize));
            let j = choose|j: int| 0 <= j < old.len() && old[j] == k as usize;
            if j < pos {
                assert(new[j] == k as usize);
            } else {
                assert(new[j + 1] == k as usize);
            }
        }
    }
    assert forall|a: int, b: int| 0 <= a < b < old.len() + 1 implies before(
        keys,
        #[trigger] new[a] as int,
        #[trigger] new[b] as int,
    ) by {
        if a < pos && b < pos {
            assert(before(keys, old[a] as int, old[b] as int));
        } else if a < pos && b == pos {
            assert(keys[old[a] as int] <= keys[i as int]);
            assert(old[a] < i);
        } else if a < pos && b > pos {
            assert(new[b] == old[b - 1]);
            assert(before(keys, old[a] as int, old[b - 1] as int));
        } else if a == pos {
            assert(new[b] == old[b - 1]);
            assert(keys[old[pos] as int] > keys[i as int]);
            if b - 1 > pos {
                assert(before(keys, old[pos] as int, old[b - 1] as int));
            }
        } else {
            assert(new[a] == old[a - 1]);
            assert(new[b] == old[b - 1]);
            assert(before(keys, old[a - 1] as int, old[b - 1] as int));
        }
    }
}

/// The stable sorting order of `keys`: `keys[order[0]], keys[order[1]], ...`
/// is non-decreasing, and indices with equal keys keep their relative order.
pub fn stable_order(keys: &Vec<u32>) -> (order: Vec<usize>)
    ensures
        is_stable_order(keys@, order@),
        order@.len() == keys@.len(),
        forall|i: int| 0 <= i < order@.len() ==> #[trigger] order@[i] < keys@.len(),
        forall|k: int| 0 <= k < keys@.len() ==> #[trigger] order@.contains(k as usize),
        forall|i: int, j: int|
            0 <= i < j < order@.len() ==> keys@[#[trigger] order@[i] as int] < keys@[#[trigger] order@[j] as int]
                || (keys@[order@[i] as int] == keys@[order@[j] as int] && order@[i] < order@[j]),
{
    let n = keys.len();
    let mut order: Vec<usize> = Vec::new();
    let mut i: usize = 0;
    while i < n
        invariant
            i <= n,
            n == keys@.len(),
            order@.len() == i,
            forall|q: int| 0 <= q < order@.len() ==> #[trigger] order@[q] < i,
            forall|k: int| 0 <= k < i ==> #[trigger] order@.contains(k as usize),
            forall|a: int, b: int|
                0 <= a < b < order@.len() ==> before(
                    keys@,
                    #[trigger] order@[a] as int,
                    #[trigger] order@[b] as int,
                ),
        decreases n - i,
    {
        let key = keys[i];
        let mut pos: usize = 0;
        while pos < order.len() && keys[order[pos]] <= key
            invariant
                pos <= order@.len(),
                order@.len() == i,
                i < n,
                n == keys@.len(),
                key == keys@[i as int],
                forall|q: int| 0 <= q < order@.len() ==> #[trigger] order@[q] < i,
                forall|q: int| 0 <= q < pos ==> keys@[#[trigger] order@[q] as int] <= key,
            decreases order@.len() - pos,
        {
            pos += 1;
        }
        proof {
            lemma_insert_keeps_order(keys@, order@, pos as int, i);
        }
        order.insert(pos, i);
        i += 1;
    }
    order
}

/// Two stable orders of the same keys are the same sequence: the order is
/// determined by the keys alone.
pub proof fn lemma_stable_order_unique(keys: Seq<u32>, p: Seq<usize>, q: Seq<usize>)
    requires
        is_stable_order(keys, p),
        is_stable_order(keys, q),
    ensures
        p == q,
{
    assert forall|x: usize| p.contains(x) implies q.contains(x) by {
        let i = choose|i: int| 0 <= i < p.len() && p[i] == x;
        assert(p[i] < keys.len());
        assert(q.contains((x as int) as usize));
    }
    assert forall|x: usize| q.contains(x) implies p.contains(x) by {
        let i = choose|i: int| 0 <= i < q.len() && q[i] == x;
        assert(q[i] < keys.len());
        assert(p.contains((x as int) as usize));
    }
    lemma_increasing_with_same_elements(keys, p, q);
}

proof fn lemma_increasing_with_same_elements(keys: Seq<u32>, p: Seq<usize>, q: Seq<usize>)
    requires
        p.len() == q.len(),
        forall|i: int, j: int|
            0 <= i < j < p.len() ==> before(keys, #[trigger] p[i] as int, #[trigger] p[j] as int),
        forall|i: int, j: int|
            0 <= i < j < q.len() ==> before(keys, #[trigger] q[i] as int, #[trigger] q[j] as int),
        forall|x: usize| p.contains(x) ==> q.contains(x),
        forall|x: usize| q.contains(x) ==> p.contains(x),
    ensures
        p == q,
    decreases p.len(),
{
    if p.len() == 0 {
        assert(p =~= q);
    } else {
        assert(p.contains(p[0]));
        assert(q.contains(q[0]));
        let j = choose|j: int| 0 <= j < q.len() && q[j] == p[0];
        let i = choose|i: int| 0 <= i < p.len() && p[i] == q[0];
        if p[0] != q[0] {
            assert(before(keys, p[0] as int, p[i] as int));
            assert(before(keys, q[0] as int, q[j] as int));
            assert(false);
        }
        let pt = p.drop_first();
        let qt = q.drop_first();
        assert forall|x: usize| pt.contains(x) implies qt.contains(x) by {
            let k = choose|k: int| 0 <= k < pt.len() && pt[k] == x;
            assert(p[k + 1] == x);
            assert(before(keys, p[0] as int, p[k + 1] as int));
            assert(p.contains(x));
            let m = choose|m: int| 0 <= m < q.len() && q[m] == x;
            assert(m != 0);
            assert(qt[m - 1] == x);
        }
        assert forall|x: usize| qt.contains(x) implies pt.contains(x) by {
            let k = choose|k: int| 0 <= k < qt.len() && qt[k] == x;
            assert(q[k + 1] == x);
            assert(before(keys, q[0] as int, q[k + 1] as int));
            assert(q.contains(x));
            let m = choose|m: int| 0 <= m < p.len() && p[m] == x;
            assert(m != 0);
            assert(pt[m - 1] == x);
        }
        assert forall|a: int, b: int| 0 <= a < b < pt.len() implies before(
            keys,
            #[trigger] pt[a] as int,
            #[trigger] pt[b] as int,
        ) by {
            assert(pt[a] == p[a + 1] && pt[b] == p[b + 1]);
        }
        assert forall|a: int, b: int| 0 <= a < b < qt.len() implies before(
            keys,
            #[trigger] qt[a] as int,
            #[trigger] qt[b] as int,
        ) by {
            assert(qt[a] == q[a + 1] && qt[b] == q[b + 1]);
        }
        lemma_increasing_with_same_elements(keys, pt, qt);
        assert(p =~= q) by {
            assert forall|k: int| 0 <= k < p.len() implies p[k] == q[k] by {
                if k > 0 {
                    assert(p[k] == pt[k - 1]);
                    assert(q[k] == qt[k - 1]);
                }
            }
        }
    }
}


/// `sorted` lists `stops` in the order `order`.
pub open spec fn arranged(stops: Seq<StopEntry>, order: Seq<usize>, sorted: Seq<StopEntry>) -> bool {
    &&& sorted.len() == order.len()
    &&& forall|i: int| 0 <= i < sorted.len() ==> #[trigger] sorted[i] == stops[order[i] as int]
}

/// Sorts stops by key, keeping stops with equal keys in their list order.
pub fn sort_stops(stops: &Vec<StopEntry>) -> (sorted: Vec<StopEntry>)
    ensures
        exists|order: Seq<usize>|
            #[trigger] is_stable_order(stop_keys(stops@), order) && arranged(stops@, order, sorted@),
        sorted@.len() == stops@.len(),
        forall|i: int, j: int|
            0 <= i <= j < sorted@.len() ==> (#[trigger] sorted@[i]).key <= (#[trigger] sorted@[j]).key,
        forall|e: StopEntry| stops@.contains(e) <==> #[trigger] sorted@.contains(e),
{
    let n = stops.len();
    let mut keys: Vec<u32> = Vec::new();
    let mut i: usize = 0;
    while i < n
        invariant
            i <= n,
            n == stops@.len(),
            keys@ == stop_keys(stops@).take(i as int),
        decreases n - i,
    {
        keys.push(stops[i].key);
        proof {
            assert(stop_keys(stops@).take(i + 1) =~= stop_keys(stops@).take(i as int).push(
                stops@[i as int].key,
            ));
        }
        i += 1;
    }
    assert(keys@ =~= stop_keys(stops@));
    let order = stable_order(&keys);
    let mut sorted: Vec<StopEntry> = Vec::new();
    let mut j: usize = 0;
    while j < n
        invariant
            j <= n,
            n == stops@.len(),
            is_stable_order(stop_keys(stops@), order@),
            sorted@.len() == j,
            forall|q: int| 0 <= q < j ==> #[trigger] sorted@[q] == stops@[order@[q] as int],
        decreases n - j,
    {
        let k = order[j];
        assert(k < n);
        sorted.push(stops[k]);
        j += 1;
    }
    assert(arranged(stops@, order@, sorted@));
    proof {
        lemma_arranged_is_sorted(stops@, order@, sorted@);
        lemma_arranged_same_entries(stops@, order@, sorted@);
    }
    sorted
}

proof fn lemma_arranged_same_entries(stops: Seq<StopEntry>, order: Seq<usize>, sorted: Seq<StopEntry>)
    requires
        stops.len() <= usize::MAX,
        is_stable_order(stop_keys(stops), order),
        arranged(stops, order, sorted),
    ensures
        forall|e: StopEntry| stops.contains(e) <==> #[trigger] sorted.contains(e),
{
    assert forall|e: StopEntry| stops.contains(e) <==> #[trigger] sorted.contains(e) by {
        if stops.contains(e) {
            let k = choose|k: int| 0 <= k < stops.len() && stops[k] == e;
            assert(order.contains(k as usize));
            let p = choose|p: int| 0 <= p < order.len() && order[p] == k as usize;
            assert(sorted[p] == e);
        }
        if sorted.contains(e) {
            let p = choose|p: int| 0 <= p < sorted.len() && sorted[p] == e;
            assert(order[p] < stops.len());
            assert(stops[order[p] as int] == e);
        }
    }
}

/// The stops of a gradient in the order in which it is sampled: the
/// collected stops, stably sorted by key.
pub fn gradient_stops(start_key: u32, mids: &[Option<u32>], end_key: u32) -> (stops: Vec<StopEntry>)
    ensures
        exists|order: Seq<usize>|
            #[trigger] is_stable_order(stop_keys(collected_stops(start_key, mids@, end_key)), order)
                && arranged(collected_stops(start_key, mids@, end_key), order, stops@),
        stops@.len() == 2 + mids@.filter(|o: Option<u32>| o is Some).len(),
        forall|i: int, j: int|
            0 <= i <= j < stops@.len() ==> (#[trigger] stops@[i]).key <= (#[trigger] stops@[j]).key,
        stops@.contains(StopEntry { key: start_key, source: StopSource::Start }),
        stops@.contains(StopEntry { key: end_key, source: StopSource::End }),
        forall|i: int|
            0 <= i < mids@.len() && #[trigger] mids@[i] is Some ==> stops@.contains(
                StopEntry { key: mids@[i]->0, source: StopSource::Mid(i as usize) },
            ),
        forall|e: StopEntry|
            #[trigger] stops@.contains(e) ==> e == (StopEntry { key: start_key, source: StopSource::Start })
                || e == (StopEntry { key: end_key, source: StopSource::End }) || (e.source is Mid
                && (e.source->0 as int) < mids@.len() && mids@[e.source->0 as int] == Some(e.key)),
{
    let collected = collect_stops(start_key, mids, end_key);
    let sorted = sort_stops(&collected);
    proof {
        let c = collected@;
        assert(c.contains(c[0]));
        assert(c.contains(c[c.len() - 1]));
        assert forall|i: int| 0 <= i < mids@.len() && #[trigger] mids@[i] is Some implies sorted@.contains(
            StopEntry { key: mids@[i]->0, source: StopSource::Mid(i as usize) },
        ) by {
            assert(c.contains(StopEntry { key: mids@[i]->0, source: StopSource::Mid(i as usize) }));
        }
        assert forall|e: StopEntry| #[trigger] sorted@.contains(e) implies e == (StopEntry {
            key: start_key,
            source: StopSource::Start,
        }) || e == (StopEntry { key: end_key, source: StopSource::End }) || (e.source is Mid
            && (e.source->0 as int) < mids@.len() && mids@[e.source->0 as int] == Some(e.key)) by {
            assert(c.contains(e));
            let k = choose|k: int| 0 <= k < c.len() && c[k] == e;
            if 0 < k < c.len() - 1 {
                assert(c[k].source is Mid);
            }
        }
    }
    sorted
}

proof fn lemma_enabled_mids_within(mids: Seq<Option<u32>>, n: nat, lo: u32, hi: u32)
    requires
        n <= mids.len(),
        forall|i: int| 0 <= i < mids.len() && #[trigger] mids[i] is Some ==> lo <= mids[i]->0 <= hi,
    ensures
        enabled_mids(mids, n).len() <= n,
        forall|i: int|
            0 <= i < enabled_mids(mids, n).len() ==> lo <= #[trigger] enabled_mids(mids, n)[i].key <= hi,
    decreases n,
{
    if n > 0 {
        lemma_enabled_mids_within(mids, (n - 1) as nat, lo, hi);
        assert(mids[n - 1] is Some ==> lo <= mids[n - 1]->0 <= hi);
    }
}

/// When every enabled optional stop lies between the start and the end
/// position, the sorted gradient begins with the start stop and finishes
/// with the end stop, even where an optional stop shares their position.
pub proof fn lemma_start_first_end_last(
    start_key: u32,
    mids: Seq<Option<u32>>,
    end_key: u32,
    order: Seq<usize>,
)
    requires
        mids.len() + 2 <= usize::MAX,
        start_key <= end_key,
        forall|i: int| 0 <= i < mids.len() && #[trigger] mids[i] is Some ==> start_key <= mids[i]->0 <= end_key,
        is_stable_order(stop_keys(collected_stops(start_key, mids, end_key)), order),
    ensures
        collected_stops(start_key, mids, end_key)[order[0] as int].source == StopSource::Start,
        collected_stops(start_key, mids, end_key)[order.last() as int].source == StopSource::End,
{
    let stops = collected_stops(start_key, mids, end_key);
    let keys = stop_keys(stops);
    let middle = enabled_mids(mids, mids.len());
    let n = stops.len();
    lemma_enabled_mids_within(mids, mids.len(), start_key, end_key);
    assert(n == middle.len() + 2);
    assert forall|x: int| 0 <= x < n implies start_key <= #[trigger] keys[x] <= end_key by {
        if 0 < x < n - 1 {
            assert(stops[x] == middle[x - 1]);
        }
    }
    assert(keys[0] == start_key);
    assert(keys[n - 1] == end_key);
    let first = order[0] as int;
    let final_ = order[n - 1] as int;
    assert(order.contains((0int) as usize));
    let p = choose|p: int| 0 <= p < order.len() && order[p] == (0int) as usize;
    if p > 0 {
        assert(before(keys, order[0] as int, order[p] as int));
        assert(order[0] < n);
        assert(start_key <= keys[first]);
        assert(false);
    }
    assert(order.contains((n - 1) as usize));
    let r = choose|r: int| 0 <= r < order.len() && order[r] == (n - 1) as usize;
    assert(keys.len() == n && order.len() == n);
    if r < n - 1 {
        assert(before(keys, order[r] as int, order[n - 1] as int));
        assert(order[r] as int == n - 1);
        assert(keys[n - 1] == end_key);
        assert(order[n - 1] < n);
        assert(keys[final_] <= end_key);
        assert(false);
    }
    assert(stops[0].source == StopSource::Start);
    assert(stops[n - 1].source == StopSource::End);
}

/// How the colour at a position is obtained from the sorted stops.
#[derive(Clone, Copy, Debug, PartialEq, Eq, Structural)]
pub enum Sample {
    /// There are no stops: black.
    Black,
    /// The colour of stop `i` itself.
    Stop(usize),
    /// A blend between stop `j` and stop `j + 1`.
    Blend(usize),
}

/// Finds the stops that give the colour at position `t`: before the first
/// stop and after the last one the colour is clamped to that stop;
/// otherwise it is the first segment `j .. j + 1` whose end reaches `t`.
pub fn sample_stops(keys: &Vec<u32>, t: u32) -> (s: Sample)
    ensures
        keys@.len() == 0 ==> s == Sample::Black,
        keys@.len() > 0 && t <= keys@[0] ==> s == Sample::Stop(0),
        keys@.len() > 0 && keys@[0] < t && keys@.last() <= t ==> s == Sample::Stop(
            (keys@.len() - 1) as usize,
        ),
        keys@.len() > 0 && keys@[0] < t < keys@.last() ==> (s matches Sample::Blend(j) && j + 1
            < keys@.len() && keys@[j as int] < t <= keys@[j + 1] && forall|i: int|
            0 <= i < j ==> #[trigger] keys@[i + 1] < t),
{
    if keys.len() == 0 {
        return Sample::Black;
    }
    if t <= keys[0] {
        return Sample::Stop(0);
    }
    let last = keys.len() - 1;
    if t >= keys[last] {
        return Sample::Stop(last);
    }
    let mut j: usize = 0;
    while j < last
        invariant
            j <= last,
            last + 1 == keys@.len(),
            keys@[0] < t < keys@[last as int],
            forall|i: int| 0 <= i < j ==> #[trigger] keys@[i + 1] < t,
        decreases last - j,
    {
        if t <= keys[j + 1] {
            proof {
                if j > 0 {
                    assert(keys@[(j - 1) + 1] < t);
                }
            }
            return Sample::Blend(j);
        }
        j += 1;
    }
    proof {
        assert(keys@[(last - 1) + 1] < t);
    }
    Sample::Stop(last)
}

/// Stops listed in a stable order have non-decreasing keys.
pub proof fn lemma_arranged_is_sorted(stops: Seq<StopEntry>, order: Seq<usize>, sorted: Seq<StopEntry>)
    requires
        is_stable_order(stop_keys(stops), order),
        arranged(stops, order, sorted),
    ensures
        forall|i: int, j: int| 0 <= i <= j < sorted.len() ==> #[trigger] sorted[i].key <= #[trigger] sorted[j].key,
{
    assert forall|i: int, j: int| 0 <= i <= j < sorted.len() implies #[trigger] sorted[i].key
        <= #[trigger] sorted[j].key by {
        if i < j {
            assert(before(stop_keys(stops), order[i] as int, order[j] as int));
            assert(order[i] < stops.len() && order[j] < stops.len());
        }
    }
}

/// On sorted keys, a position further along the axis never falls in an
/// earlier segment than a position before it.
pub proof fn lemma_segments_follow_position(keys: Seq<u32>, t1: u32, j1: int, t2: u32, j2: int)
    requires
        forall|a: int, b: int| 0 <= a <= b < keys.len() ==> #[trigger] keys[a] <= #[trigger] keys[b],
        0 <= j1 && j1 + 1 < keys.len(),
        0 <= j2 && j2 + 1 < keys.len(),
        keys[j1] < t1 <= keys[j1 + 1],
        keys[j2] < t2 <= keys[j2 + 1],
        t1 <= t2,
    ensures
        j1 <= j2,
{
    if j1 > j2 {
        assert(keys[j2 + 1] <= keys[j1]);
    }
}

} // verus!
