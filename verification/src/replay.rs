use vstd::prelude::*;

verus! {

/// Advance the replay cursor by `dt_ns` (already scaled by playback speed)
/// while playing, never past `end_ns`. Returns the new cursor and whether
/// playback continues.
pub fn advance_replay_t_ns(playing: bool, dt_ns: u64, t_ns: u64, end_ns: u64) -> (r: (u64, bool))
    ensures
        !playing ==> r == (if t_ns <= end_ns { t_ns } else { end_ns }, false),
        playing ==> ({
            let next = if t_ns + dt_ns > u64::MAX { u64::MAX as int } else { t_ns + dt_ns };
            let clamped = if next <= end_ns { next } else { end_ns as int };
            r.0 == clamped && r.1 == (clamped < end_ns)
        }),
{
    if !playing {
        return (if t_ns <= end_ns { t_ns } else { end_ns }, false);
    }
    let next0 = t_ns.saturating_add(dt_ns);
    let next = if next0 <= end_ns { next0 } else { end_ns };
    (next, next < end_ns)
}

/// Index of the camera sample shown at `t_ns`: the latest sample not after
/// `t_ns` (the last such one when several share that time), if any.
pub open spec fn pose_index_spec(ts: Seq<u64>, t_ns: u64, r: Option<usize>) -> bool {
    match r {
        None => forall|i: int| 0 <= i < ts.len() ==> ts[i] > t_ns,
        Some(k) => {
            &&& k < ts.len()
            &&& ts[k as int] <= t_ns
            &&& forall|i: int| 0 <= i < ts.len() && ts[i] <= t_ns ==> ts[i] <= ts[k as int]
            &&& forall|i: int| k < i < ts.len() && ts[i] <= t_ns ==> ts[i] < ts[k as int]
        },
    }
}

pub fn camera_pose_index_at(sample_ts: &[u64], t_ns: u64) -> (r: Option<usize>)
    ensures
        pose_index_spec(sample_ts@, t_ns, r),
{
    let mut best: Option<usize> = None;
    let mut k: usize = 0;
    while k < sample_ts.len()
        invariant
            k <= sample_ts@.len(),
            pose_index_spec(sample_ts@.take(k as int), t_ns, best),
        decreases sample_ts.len() - k,
    {
        let ts = sample_ts[k];
        let ghost pre = sample_ts@.take(k as int);
        let ghost post = sample_ts@.take(k + 1);
        assert(post =~= pre.push(ts));
        if ts <= t_ns {
            match best {
                None => {
                    best = Some(k);
                },
                Some(b) => {
                    if ts >= sample_ts[b] {
                        best = Some(k);
                    }
                },
            }
        }
        k = k + 1;
    }
    assert(sample_ts@.take(sample_ts@.len() as int) =~= sample_ts@);
    best
}

/// Indices of the shots whose time lies in `(prev_t, t_ns]`, in order.
pub open spec fn crossed(ts: Seq<u64>, prev_t: u64, t_ns: u64) -> Seq<usize>
    decreases ts.len(),
{
    if ts.len() == 0 {
        Seq::empty()
    } else {
        let r = crossed(ts.drop_last(), prev_t, t_ns);
        if prev_t < ts.last() && ts.last() <= t_ns {
            r.push((ts.len() - 1) as usize)
        } else {
            r
        }
    }
}

pub fn shots_crossed(shot_ts: &[u64], prev_t: u64, t_ns: u64) -> (r: Vec<usize>)
    ensures
        r@ == crossed(shot_ts@, prev_t, t_ns),
{
    let mut out: Vec<usize> = Vec::new();
    let mut k: usize = 0;
    while k < shot_ts.len()
        invariant
            k <= shot_ts@.len(),
            out@ == crossed(shot_ts@.take(k as int), prev_t, t_ns),
        decreases shot_ts.len() - k,
    {
        assert(shot_ts@.take(k + 1).drop_last() =~= shot_ts@.take(k as int));
        let ts = shot_ts[k];
        if prev_t < ts && ts <= t_ns {
            out.push(k);
        }
        k = k + 1;
    }
    assert(shot_ts@.take(shot_ts@.len() as int) =~= shot_ts@);
    out
}

// ------------------------------------------------------------ live targets

/// What a stored target event records about a target's life.
#[derive(Debug, Clone, Copy, PartialEq, Eq, Structural)]
pub enum TargetEventKind {
    Spawn,
    DirectionChange,
    Despawn,
    Other,
}

/// A stored target event, reduced to what replay reads to decide which
/// targets are alive.
#[derive(Debug, Clone, PartialEq)]
pub struct TargetEvent {
    pub target_id: String,
    pub kind: TargetEventKind,
    pub timestamp_ns: u64,
}

/// Lexicographic order of character sequences (a proper prefix comes first).
pub open spec fn lex_less(a: Seq<char>, b: Seq<char>) -> bool
    decreases a.len(),
{
    if b.len() == 0 {
        false
    } else if a.len() == 0 {
        true
    } else if a[0] != b[0] {
        a[0] < b[0]
    } else {
        lex_less(a.skip(1), b.skip(1))
    }
}

proof fn lemma_lex_irreflexive(a: Seq<char>)
    ensures
        !lex_less(a, a),
    decreases a.len(),
{
    if a.len() > 0 {
        lemma_lex_irreflexive(a.skip(1));
    }
}

proof fn lemma_lex_transitive(a: Seq<char>, b: Seq<char>, c: Seq<char>)
    requires
        lex_less(a, b),
        lex_less(b, c),
    ensures
        lex_less(a, c),
    decreases a.len(),
{
    if a.len() > 0 && b.len() > 0 && c.len() > 0 && a[0] == b[0] && b[0] == c[0] {
        lemma_lex_transitive(a.skip(1), b.skip(1), c.skip(1));
    }
}

proof fn lemma_lex_total(a: Seq<char>, b: Seq<char>)
    requires
        a != b,
    ensures
        lex_less(a, b) || lex_less(b, a),
    decreases a.len(),
{
    if a.len() > 0 && b.len() > 0 && a[0] == b[0] {
        if a.skip(1) == b.skip(1) {
            assert(a =~= seq![a[0]] + a.skip(1));
            assert(b =~= seq![b[0]] + b.skip(1));
        }
        lemma_lex_total(a.skip(1), b.skip(1));
    } else if a.len() > 0 && b.len() > 0 {
    } else if a.len() == 0 && b.len() == 0 {
        assert(a =~= b);
    }
}

/// Whether `a` orders strictly before `b`, character by character.
pub fn string_less(a: &String, b: &String) -> (r: bool)
    ensures
        r == lex_less(a@, b@),
{
    let sa = a.as_str();
    let sb = b.as_str();
    let na = sa.unicode_len();
    let nb = sb.unicode_len();
    let mut i: usize = 0;
    assert(a@.skip(0) =~= a@);
    assert(b@.skip(0) =~= b@);
    while i < na || i < nb
        invariant
            sa@ == a@,
            sb@ == b@,
            na == a@.len(),
            nb == b@.len(),
            i <= na,
            i <= nb,
            lex_less(a@, b@) == lex_less(a@.skip(i as int), b@.skip(i as int)),
        decreases na + nb - 2 * i,
    {
        if i == nb {
            return false;
        }
        if i == na {
            return true;
        }
        let ca = sa.get_char(i);
        let cb = sb.get_char(i);
        assert(a@.skip(i as int)[0] == ca);
        assert(b@.skip(i as int)[0] == cb);
        if ca != cb {
            return ca < cb;
        }
        assert(a@.skip(i as int).skip(1) =~= a@.skip(i + 1));
        assert(b@.skip(i as int).skip(1) =~= b@.skip(i + 1));
        i = i + 1;
    }
    assert(a@.skip(i as int).len() == 0);
    assert(b@.skip(i as int).len() == 0);
    false
}

/// The index of the latest spawn of `target_id` among `evs`, if any.
pub open spec fn latest_spawn(evs: Seq<TargetEvent>, target_id: Seq<char>) -> Option<int>
    decreases evs.len(),
{
    if evs.len() == 0 {
        None
    } else if evs.last().target_id@ == target_id && evs.last().kind == TargetEventKind::Spawn {
        Some(evs.len() - 1)
    } else {
        latest_spawn(evs.drop_last(), target_id)
    }
}

/// The latest spawn event of `target_id`, whose data names the yaw the
/// target was commanded to.
pub fn latest_spawn_index(events: &[TargetEvent], target_id: &str) -> (r: Option<usize>)
    ensures
        r matches Some(k) ==> latest_spawn(events@, target_id@) == Some(k as int) && k < events@.len(),
        r is None ==> latest_spawn(events@, target_id@) is None,
{
    let want = String::from_str(target_id);
    let mut k = events.len();
    assert(events@.take(k as int) =~= events@);
    while k > 0
        invariant
            k <= events@.len(),
            want@ == target_id@,
            latest_spawn(events@, target_id@) == latest_spawn(events@.take(k as int), target_id@),
        decreases k,
    {
        let ghost pre = events@.take(k as int);
        assert(pre.drop_last() =~= events@.take(k - 1));
        let e = &events[k - 1];
        if e.target_id == want && e.kind == TargetEventKind::Spawn {
            return Some(k - 1);
        }
        k = k - 1;
    }
    None
}

/// For each target alive after the events at or before `t_ns`, the index of
/// its latest spawn or direction change: spawns and direction changes (re)set
/// it, a despawn removes the target.
pub open spec fn live_map(evs: Seq<TargetEvent>, t_ns: u64) -> Map<Seq<char>, int>
    decreases evs.len(),
{
    if evs.len() == 0 {
        Map::empty()
    } else {
        let m = live_map(evs.drop_last(), t_ns);
        let e = evs.last();
        if e.timestamp_ns > t_ns {
            m
        } else {
            match e.kind {
                TargetEventKind::Spawn => m.insert(e.target_id@, evs.len() - 1),
                TargetEventKind::DirectionChange => m.insert(e.target_id@, evs.len() - 1),
                TargetEventKind::Despawn => m.remove(e.target_id@),
                TargetEventKind::Other => m,
            }
        }
    }
}

pub open spec fn key_of(evs: Seq<TargetEvent>, i: int) -> Seq<char> {
    evs[i].target_id@
}

/// `r` lists exactly the targets of `m` (by event index), ordered by id.
pub open spec fn lists_live(evs: Seq<TargetEvent>, m: Map<Seq<char>, int>, r: Seq<usize>) -> bool {
    &&& forall|i: int| 0 <= i < r.len() ==> (#[trigger] r[i]) < evs.len()
    &&& forall|i: int|
        0 <= i < r.len() ==> m.contains_key(key_of(evs, r[i] as int)) && m[key_of(
            evs,
            r[i] as int,
        )] == r[i] as int
    &&& forall|k: Seq<char>|
        m.contains_key(k) ==> exists|i: int| 0 <= i < r.len() && key_of(evs, #[trigger] r[i] as int) == k
    &&& forall|i: int, j: int|
        0 <= i < j < r.len() ==> lex_less(key_of(evs, #[trigger] r[i] as int), key_of(evs, #[trigger] r[j] as int))
}

fn find_slot(events: &[TargetEvent], entries: &Vec<usize>, key: &String) -> (r: (usize, bool))
    requires
        forall|i: int| 0 <= i < entries@.len() ==> (#[trigger] entries@[i]) < events@.len(),
    ensures
        r.0 <= entries@.len(),
        forall|i: int| 0 <= i < r.0 ==> lex_less(key_of(events@, #[trigger] entries@[i] as int), key@),
        r.1 ==> r.0 < entries@.len() && key_of(events@, entries@[r.0 as int] as int) == key@,
        !r.1 && r.0 < entries@.len() ==> !lex_less(key_of(events@, entries@[r.0 as int] as int), key@)
            && key_of(events@, entries@[r.0 as int] as int) != key@,
{
    let mut p: usize = 0;
    while p < entries.len()
        invariant
            p <= entries@.len(),
            forall|i: int| 0 <= i < entries@.len() ==> (#[trigger] entries@[i]) < events@.len(),
            forall|i: int| 0 <= i < p ==> lex_less(key_of(events@, #[trigger] entries@[i] as int), key@),
        decreases entries.len() - p,
    {
        let id = &events[entries[p]].target_id;
        if *id == *key {
            return (p, true);
        }
        if !string_less(id, key) {
            return (p, false);
        }
        p = p + 1;
    }
    (p, false)
}

/// The targets alive at `t_ns`, ordered by target id, each given as the
/// index of its latest spawn or direction-change event.
pub fn live_target_events_at(events: &[TargetEvent], t_ns: u64) -> (r: Vec<usize>)
    ensures
        lists_live(events@, live_map(events@, t_ns), r@),
{
    let mut entries: Vec<usize> = Vec::new();
    let mut k: usize = 0;
    while k < events.len()
        invariant
            k <= events@.len(),
            forall|i: int| 0 <= i < entries@.len() ==> (#[trigger] entries@[i]) < k,
            lists_live(events@, live_map(events@.take(k as int), t_ns), entries@),
        decreases events.len() - k,
    {
        let ghost evs = events@;
        let ghost m0 = live_map(evs.take(k as int), t_ns);
        assert(evs.take(k + 1).drop_last() =~= evs.take(k as int));
        assert(evs.take(k + 1).last() == evs[k as int]);
        assert forall|i: int| 0 <= i < entries@.len() implies key_of(evs.take(k + 1), entries@[i] as int)
            == key_of(evs, entries@[i] as int) by {}
        let e = &events[k];
        if e.timestamp_ns <= t_ns {
            match e.kind {
                TargetEventKind::Spawn | TargetEventKind::DirectionChange => {
                    let (p, found) = find_slot(events, &entries, &e.target_id);
                    let ghost before = entries@;
                    if found {
                        entries.set(p, k);
                        proof {
                            lemma_replace_keeps_order(evs, before, p as int, k);
                        }
                    } else {
                        entries.insert(p, k);
                        proof {
                            lemma_insert_keeps_order(evs, before, p as int, k);
                        }
                    }
                    proof {
                        let m1 = m0.insert(evs[k as int].target_id@, k as int);
                        assert(live_map(evs.take(k + 1), t_ns) == m1);
                        lemma_upsert_lists(evs, m0, before, entries@, p as int, k, found);
                    }
                },
                TargetEventKind::Despawn => {
                    let (p, found) = find_slot(events, &entries, &e.target_id);
                    if found {
                        let ghost before = entries@;
                        entries.remove(p);
                        proof {
                            lemma_remove_lists(evs, m0, before, entries@, p as int, k as int);
                        }
                    } else {
                        proof {
                            lemma_absent_lists(evs, m0, entries@, p as int, k as int);
                        }
                    }
                    assert(live_map(evs.take(k + 1), t_ns) == m0.remove(evs[k as int].target_id@));
                },
                TargetEventKind::Other => {},
            }
        }
        k = k + 1;
    }
    assert(events@.take(events@.len() as int) =~= events@);
    entries
}

proof fn lemma_replace_keeps_order(evs: Seq<TargetEvent>, before: Seq<usize>, p: int, k: usize)
    requires
        0 <= p < before.len(),
        k < evs.len(),
        forall|i: int| 0 <= i < before.len() ==> (#[trigger] before[i]) < evs.len(),
        key_of(evs, before[p] as int) == key_of(evs, k as int),
        forall|i: int, j: int|
            0 <= i < j < before.len() ==> lex_less(key_of(evs, #[trigger] before[i] as int), key_of(evs, #[trigger] before[j] as int)),
    ensures
        forall|i: int, j: int|
            0 <= i < j < before.len() ==> lex_less(key_of(evs, #[trigger] before.update(p, k)[i] as int), key_of(evs, #[trigger] before.update(p, k)[j] as int)),
{
    let after = before.update(p, k);
    assert forall|m: int| 0 <= m < before.len() implies key_of(evs, #[trigger] after[m] as int) == key_of(evs, before[m] as int) by {
        if m == p {
            assert(after[m] == k);
        } else {
            assert(after[m] == before[m]);
        }
    }
    assert forall|i: int, j: int| 0 <= i < j < before.len() implies lex_less(key_of(evs, #[trigger] after[i] as int), key_of(evs, #[trigger] after[j] as int)) by {
        assert(key_of(evs, after[i] as int) == key_of(evs, before[i] as int));
        assert(key_of(evs, after[j] as int) == key_of(evs, before[j] as int));
        assert(lex_less(key_of(evs, before[i] as int), key_of(evs, before[j] as int)));
    }
}

proof fn lemma_insert_keeps_order(evs: Seq<TargetEvent>, before: Seq<usize>, p: int, k: usize)
    requires
        0 <= p <= before.len(),
        k < evs.len(),
        forall|i: int| 0 <= i < before.len() ==> (#[trigger] before[i]) < evs.len(),
        forall|i: int| 0 <= i < p ==> lex_less(key_of(evs, #[trigger] before[i] as int), key_of(evs, k as int)),
        p < before.len() ==> !lex_less(key_of(evs, before[p] as int), key_of(evs, k as int)) && key_of(evs, before[p] as int) != key_of(evs, k as int),
        forall|i: int, j: int|
            0 <= i < j < before.len() ==> lex_less(key_of(evs, #[trigger] before[i] as int), key_of(evs, #[trigger] before[j] as int)),
    ensures
        forall|i: int, j: int|
            0 <= i < j < before.len() + 1 ==> lex_less(key_of(evs, #[trigger] before.insert(p, k)[i] as int), key_of(evs, #[trigger] before.insert(p, k)[j] as int)),
{
    let after = before.insert(p, k);
    let nk = key_of(evs, k as int);
    if p < before.len() {
        lemma_lex_total(key_of(evs, before[p] as int), nk);
    }
    assert forall|i: int, j: int| 0 <= i < j < before.len() + 1 implies lex_less(key_of(evs, #[trigger] after[i] as int), key_of(evs, #[trigger] after[j] as int)) by {
        let ki = key_of(evs, after[i] as int);
        let kj = key_of(evs, after[j] as int);
        if j == p {
            assert(after[i] == before[i]);
            assert(after[j] == k);
        } else if i == p {
            assert(after[i] == k);
            assert(after[j] == before[j - 1]);
            assert(lex_less(nk, key_of(evs, before[p] as int)));
            if j - 1 > p {
                assert(lex_less(key_of(evs, before[p] as int), key_of(evs, before[j - 1] as int)));
                lemma_lex_transitive(nk, key_of(evs, before[p] as int), kj);
            }
        } else {
            let bi = if i < p { i } else { i - 1 };
            let bj = if j < p { j } else { j - 1 };
            assert(after[i] == before[bi]);
            assert(after[j] == before[bj]);
        }
    }
}

proof fn lemma_upsert_lists(
    evs: Seq<TargetEvent>,
    m0: Map<Seq<char>, int>,
    before: Seq<usize>,
    after: Seq<usize>,
    p: int,
    k: usize,
    found: bool,
)
    requires
        k < evs.len(),
        forall|i: int| 0 <= i < before.len() ==> (#[trigger] before[i]) < k,
        lists_live(evs.take(k as int), m0, before),
        0 <= p <= before.len(),
        found ==> p < before.len() && key_of(evs, before[p] as int) == key_of(evs, k as int) && after
            == before.update(p, k),
        !found ==> after == before.insert(p, k),
        forall|i: int| 0 <= i < p ==> lex_less(key_of(evs, #[trigger] before[i] as int), key_of(evs, k as int)),
        !found && p < before.len() ==> key_of(evs, before[p] as int) != key_of(evs, k as int)
            && !lex_less(key_of(evs, before[p] as int), key_of(evs, k as int)),
        forall|i: int, j: int|
            0 <= i < j < after.len() ==> lex_less(key_of(evs, #[trigger] after[i] as int), key_of(evs, #[trigger] after[j] as int)),
    ensures
        forall|i: int| 0 <= i < after.len() ==> (#[trigger] after[i]) < k + 1,
        lists_live(evs.take(k + 1), m0.insert(key_of(evs, k as int), k as int), after),
{
    let t0 = evs.take(k as int);
    let t1 = evs.take(k + 1);
    let nk = key_of(evs, k as int);
    let m1 = m0.insert(nk, k as int);
    assert forall|i: int| 0 <= i < before.len() implies key_of(t0, #[trigger] before[i] as int) == key_of(evs, before[i] as int) by {}
    assert forall|i: int| 0 <= i < after.len() implies (#[trigger] after[i]) < k + 1 by {
        if found {
            if i != p {
                assert(after[i] == before[i]);
            }
        } else {
            if i < p {
                assert(after[i] == before[i]);
            } else if i > p {
                assert(after[i] == before[i - 1]);
            }
        }
    }
    assert forall|i: int| 0 <= i < after.len() implies key_of(t1, #[trigger] after[i] as int) == key_of(evs, after[i] as int) by {}
    // every listed target maps to its listed index
    assert forall|i: int| 0 <= i < after.len() implies m1.contains_key(key_of(t1, after[i] as int)) && m1[key_of(t1, after[i] as int)] == after[i] as int by {
        let bi = if found { i } else if i < p { i } else { i - 1 };
        if after[i] as int == k {
        } else {
            assert(after[i] == before[bi]);
            assert(key_of(t0, before[bi] as int) == key_of(evs, before[bi] as int));
            if key_of(evs, before[bi] as int) == nk {
                // only the replaced slot can share the new key
                if found {
                    if bi != p {
                        if bi < p {
                            assert(lex_less(key_of(evs, before[bi] as int), key_of(evs, before[p] as int)));
                        } else {
                            assert(lex_less(key_of(evs, before[p] as int), key_of(evs, before[bi] as int)));
                        }
                        lemma_lex_irreflexive(nk);
                    }
                } else if bi < p {
                    lemma_lex_irreflexive(nk);
                } else {
                    // bi >= p: the key at p orders at or before bi
                    if bi > p {
                        assert(lex_less(key_of(evs, before[p] as int), key_of(evs, before[bi] as int)));
                        lemma_lex_total(key_of(evs, before[p] as int), nk);
                        assert(!lex_less(key_of(evs, before[p] as int), nk));
                        lemma_lex_transitive(nk, key_of(evs, before[p] as int), nk);
                        lemma_lex_irreflexive(nk);
                    }
                }
            }
        }
    }
    // every live target is listed
    assert forall|key: Seq<char>| m1.contains_key(key) implies exists|i: int| 0 <= i < after.len() && key_of(t1, #[trigger] after[i] as int) == key by {
        if key == nk {
            assert(after[p] as int == k);
            assert(key_of(t1, after[p] as int) == key);
        } else {
            assert(m0.contains_key(key));
            let bi = choose|bi: int| 0 <= bi < before.len() && key_of(t0, #[trigger] before[bi] as int) == key;
            let ai = if found { bi } else if bi < p { bi } else { bi + 1 };
            if found {
                assert(bi != p);
            }
            assert(after[ai] == before[bi]);
            assert(key_of(t1, after[ai] as int) == key);
        }
    }
    assert forall|i: int, j: int| 0 <= i < j < after.len() implies lex_less(key_of(t1, #[trigger] after[i] as int), key_of(t1, #[trigger] after[j] as int)) by {}
    assert forall|i: int| 0 <= i < after.len() implies (#[trigger] after[i]) < t1.len() by {}
}

proof fn lemma_remove_lists(
    evs: Seq<TargetEvent>,
    m0: Map<Seq<char>, int>,
    before: Seq<usize>,
    after: Seq<usize>,
    p: int,
    k: int,
)
    requires
        0 <= k < evs.len(),
        forall|i: int| 0 <= i < before.len() ==> (#[trigger] before[i]) < k,
        lists_live(evs.take(k), m0, before),
        0 <= p < before.len(),
        key_of(evs, before[p] as int) == key_of(evs, k),
        after == before.remove(p),
    ensures
        forall|i: int| 0 <= i < after.len() ==> (#[trigger] after[i]) < k + 1,
        lists_live(evs.take(k + 1), m0.remove(key_of(evs, k)), after),
{
    let t0 = evs.take(k);
    let t1 = evs.take(k + 1);
    let nk = key_of(evs, k);
    let m1 = m0.remove(nk);
    assert forall|i: int| 0 <= i < before.len() implies key_of(t0, #[trigger] before[i] as int) == key_of(evs, before[i] as int) by {}
    assert forall|i: int| 0 <= i < after.len() implies (#[trigger] after[i]) < k + 1 by {
        let bi = if i < p { i } else { i + 1 };
        assert(after[i] == before[bi]);
    }
    assert forall|i: int| 0 <= i < after.len() implies m1.contains_key(key_of(t1, after[i] as int)) && m1[key_of(t1, after[i] as int)] == after[i] as int by {
        let bi = if i < p { i } else { i + 1 };
        assert(after[i] == before[bi]);
        assert(key_of(t1, after[i] as int) == key_of(t0, before[bi] as int));
        if key_of(evs, before[bi] as int) == nk {
            if bi < p {
                assert(lex_less(key_of(evs, before[bi] as int), key_of(evs, before[p] as int)));
            } else {
                assert(lex_less(key_of(evs, before[p] as int), key_of(evs, before[bi] as int)));
            }
            lemma_lex_irreflexive(nk);
        }
    }
    assert forall|key: Seq<char>| m1.contains_key(key) implies exists|i: int| 0 <= i < after.len() && key_of(t1, #[trigger] after[i] as int) == key by {
        assert(m0.contains_key(key));
        let bi = choose|bi: int| 0 <= bi < before.len() && key_of(t0, #[trigger] before[bi] as int) == key;
        assert(bi != p);
        let ai = if bi < p { bi } else { bi - 1 };
        assert(after[ai] == before[bi]);
        assert(key_of(t1, after[ai] as int) == key);
    }
    assert forall|i: int, j: int| 0 <= i < j < after.len() implies lex_less(key_of(t1, #[trigger] after[i] as int), key_of(t1, #[trigger] after[j] as int)) by {
        let bi = if i < p { i } else { i + 1 };
        let bj = if j < p { j } else { j + 1 };
        assert(after[i] == before[bi]);
        assert(after[j] == before[bj]);
    }
}

proof fn lemma_absent_lists(evs: Seq<TargetEvent>, m0: Map<Seq<char>, int>, entries: Seq<usize>, p: int, k: int)
    requires
        0 <= k < evs.len(),
        forall|i: int| 0 <= i < entries.len() ==> (#[trigger] entries[i]) < k,
        lists_live(evs.take(k), m0, entries),
        0 <= p <= entries.len(),
        forall|i: int| 0 <= i < p ==> lex_less(key_of(evs, #[trigger] entries[i] as int), key_of(evs, k)),
        p < entries.len() ==> !lex_less(key_of(evs, entries[p] as int), key_of(evs, k))
            && key_of(evs, entries[p] as int) != key_of(evs, k),
    ensures
        forall|i: int| 0 <= i < entries.len() ==> (#[trigger] entries[i]) < k + 1,
        lists_live(evs.take(k + 1), m0.remove(key_of(evs, k)), entries),
{
    let t0 = evs.take(k);
    let t1 = evs.take(k + 1);
    let nk = key_of(evs, k);
    assert forall|i: int| 0 <= i < entries.len() implies key_of(t0, #[trigger] entries[i] as int) == key_of(evs, entries[i] as int) by {}
    assert forall|i: int| 0 <= i < entries.len() implies key_of(t1, #[trigger] entries[i] as int) == key_of(evs, entries[i] as int) by {}
    assert forall|i: int| 0 <= i < entries.len() implies key_of(evs, #[trigger] entries[i] as int) != nk by {
        if i < p {
            lemma_lex_irreflexive(nk);
        } else if i > p {
            assert(lex_less(key_of(evs, entries[p] as int), key_of(evs, entries[i] as int)));
            if key_of(evs, entries[i] as int) == nk {
                lemma_lex_total(key_of(evs, entries[p] as int), nk);
                lemma_lex_transitive(nk, key_of(evs, entries[p] as int), nk);
                lemma_lex_irreflexive(nk);
            }
        }
    }
    assert(!m0.contains_key(nk));
    assert(m0.remove(nk) =~= m0);
}

/// A target that was despawned (and not spawned again since) is not alive.
pub proof fn law_despawned_target_not_live(evs: Seq<TargetEvent>, t_ns: u64, i: int)
    requires
        0 <= i < evs.len(),
        evs[i].kind == TargetEventKind::Despawn,
        evs[i].timestamp_ns <= t_ns,
        forall|j: int|
            i < j < evs.len() && (#[trigger] evs[j]).target_id@ == evs[i].target_id@ && evs[j].timestamp_ns <= t_ns
                ==> evs[j].kind != TargetEventKind::Spawn && evs[j].kind
                != TargetEventKind::DirectionChange,
    ensures
        !live_map(evs, t_ns).contains_key(evs[i].target_id@),
    decreases evs.len(),
{
    if i < evs.len() - 1 {
        assert forall|j: int|
            i < j < evs.drop_last().len() && (#[trigger] evs.drop_last()[j]).target_id@ == evs.drop_last()[i].target_id@
                && evs.drop_last()[j].timestamp_ns <= t_ns implies evs.drop_last()[j].kind != TargetEventKind::Spawn
            && evs.drop_last()[j].kind != TargetEventKind::DirectionChange by {
            assert(evs.drop_last()[j] == evs[j]);
        }
        law_despawned_target_not_live(evs.drop_last(), t_ns, i);
    }
}

} // verus!
