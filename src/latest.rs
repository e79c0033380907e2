use vstd::prelude::*;
use crate::types::{BloodEntry, BloodValue, UserData, ValueHistoryPoint};
use crate::text::str_eq;

verus! {

/// All measurements of all entries, entry by entry, in order.
pub open spec fn all_values(entries: Seq<BloodEntry>) -> Seq<BloodValue>
    decreases entries.len(),
{
    if entries.len() == 0 {
        Seq::empty()
    } else {
        all_values(entries.drop_last()) + entries.last().values@
    }
}

/// Position of the first measurement named `name` in `s`, or `s.len()` when
/// there is none.
pub open spec fn name_pos(s: Seq<BloodValue>, name: Seq<char>) -> int
    decreases s.len(),
{
    if s.len() == 0 {
        0
    } else {
        let p = name_pos(s.drop_last(), name);
        if p < s.len() - 1 {
            p
        } else if s.last().name@ == name {
            s.len() - 1
        } else {
            s.len() as int
        }
    }
}

/// The latest measurement per name, in order of each name's first
/// appearance: a later measurement replaces the earlier one of its name in
/// place, a new name is appended.
pub open spec fn latest_values(flat: Seq<BloodValue>) -> Seq<BloodValue>
    decreases flat.len(),
{
    if flat.len() == 0 {
        Seq::empty()
    } else {
        let prev = latest_values(flat.drop_last());
        let v = flat.last();
        let k = name_pos(prev, v.name@);
        if k < prev.len() {
            prev.update(k, v)
        } else {
            prev.push(v)
        }
    }
}

/// The history point of `name` in entry `e`: its first measurement of that name.
pub open spec fn entry_point(e: BloodEntry, name: Seq<char>) -> Option<ValueHistoryPoint> {
    let k = name_pos(e.values@, name);
    if k < e.values@.len() {
        Some(ValueHistoryPoint { date: e.date, value: e.values@[k].value, unit: e.values@[k].unit, entry_id: e.id })
    } else {
        None
    }
}

/// The history of `name` over `entries`: one point for each entry that measured it.
pub open spec fn history_for(entries: Seq<BloodEntry>, name: Seq<char>) -> Seq<ValueHistoryPoint>
    decreases entries.len(),
{
    if entries.len() == 0 {
        Seq::empty()
    } else {
        let prev = history_for(entries.drop_last(), name);
        match entry_point(entries.last(), name) {
            Some(p) => prev.push(p),
            None => prev,
        }
    }
}

proof fn lemma_name_pos(s: Seq<BloodValue>, name: Seq<char>)
    ensures
        0 <= name_pos(s, name) <= s.len(),
        name_pos(s, name) < s.len() ==> s[name_pos(s, name)].name@ == name,
        forall|j: int| 0 <= j < name_pos(s, name) ==> (#[trigger] s[j]).name@ != name,
    decreases s.len(),
{
    if s.len() > 0 {
        let t = s.drop_last();
        lemma_name_pos(t, name);
        assert forall|j: int| 0 <= j < name_pos(s, name) implies (#[trigger] s[j]).name@ != name by {
            if j < t.len() {
                assert(s[j] == t[j]);
            }
        }
    }
}

proof fn lemma_name_pos_unique(s: Seq<BloodValue>, name: Seq<char>, k: int)
    requires
        0 <= k <= s.len(),
        k < s.len() ==> s[k].name@ == name,
        forall|j: int| 0 <= j < k ==> (#[trigger] s[j]).name@ != name,
    ensures
        k == name_pos(s, name),
{
    lemma_name_pos(s, name);
    let p = name_pos(s, name);
    if k < p {
        assert(s[k].name@ != name);
    } else if p < k {
        assert(s[p].name@ != name);
    }
}

/// The analyte `name` occurs in `flat`.
pub open spec fn measured(flat: Seq<BloodValue>, name: Seq<char>) -> bool {
    exists|k: int| 0 <= k < flat.len() && (#[trigger] flat[k]).name@ == name
}

/// Position `k` holds the last measurement of its analyte in `flat`.
#[verifier::opaque]
pub open spec fn is_last_of_name(flat: Seq<BloodValue>, k: int) -> bool {
    0 <= k < flat.len() && forall|m: int| k < m < flat.len() ==> (#[trigger] flat[m]).name@ != flat[k].name@
}

/// The properties that make `r` the latest-per-analyte list of `flat`.
pub open spec fn latest_props(flat: Seq<BloodValue>, r: Seq<BloodValue>) -> bool {
    &&& forall|i: int, j: int| 0 <= i < j < r.len() ==> name_pos(flat, (#[trigger] r[i]).name@) < name_pos(
        flat,
        (#[trigger] r[j]).name@,
    )
    &&& forall|i: int| 0 <= i < r.len() ==> exists|k: int| is_last_of_name(flat, k) && #[trigger] r[i] == flat[k]
    &&& forall|k: int| 0 <= k < flat.len() ==> exists|i: int| 0 <= i < r.len() && (#[trigger] r[i]).name@ == (
    #[trigger] flat[k]).name@
}

proof fn lemma_last_extend(t: Seq<BloodValue>, v: BloodValue, w: int)
    requires
        is_last_of_name(t, w),
        t[w].name@ != v.name@,
    ensures
        is_last_of_name(t.push(v), w),
        t.push(v)[w] == t[w],
{
    reveal(is_last_of_name);
    let f = t.push(v);
    assert forall|m: int| w < m < f.len() implies (#[trigger] f[m]).name@ != f[w].name@ by {
        if m < t.len() {
            assert(f[m] == t[m]);
        }
    }
}

proof fn lemma_last_final(t: Seq<BloodValue>, v: BloodValue)
    ensures
        is_last_of_name(t.push(v), t.len() as int),
{
    reveal(is_last_of_name);
}

proof fn lemma_name_pos_measured(s: Seq<BloodValue>, name: Seq<char>)
    ensures
        (name_pos(s, name) < s.len()) == measured(s, name),
{
    lemma_name_pos(s, name);
    if name_pos(s, name) < s.len() {
        assert(s[name_pos(s, name)].name@ == name);
    }
}

proof fn lemma_name_pos_push(t: Seq<BloodValue>, v: BloodValue, name: Seq<char>)
    ensures
        name_pos(t, name) < t.len() ==> name_pos(t.push(v), name) == name_pos(t, name),
        name_pos(t, name) == t.len() && v.name@ == name ==> name_pos(t.push(v), name) == t.len(),
{
    assert(t.push(v).drop_last() =~= t);
    lemma_name_pos(t, name);
}

proof fn lemma_prev_positions(t: Seq<BloodValue>, v: BloodValue, prev: Seq<BloodValue>)
    requires
        latest_props(t, prev),
    ensures
        forall|i: int| 0 <= i < prev.len() ==> name_pos(t.push(v), (#[trigger] prev[i]).name@) == name_pos(t, prev[i].name@)
            && name_pos(t, prev[i].name@) < t.len(),
{
    assert forall|i: int| 0 <= i < prev.len() implies name_pos(t.push(v), (#[trigger] prev[i]).name@) == name_pos(
        t,
        prev[i].name@,
    ) && name_pos(t, prev[i].name@) < t.len() by {
        let w = choose|w: int| is_last_of_name(t, w) && prev[i] == t[w];
        reveal(is_last_of_name);
        assert(0 <= w < t.len() && t[w].name@ == prev[i].name@);
        lemma_name_pos_measured(t, prev[i].name@);
        lemma_name_pos_push(t, v, prev[i].name@);
    }
}

proof fn lemma_latest_step_found(t: Seq<BloodValue>, v: BloodValue, prev: Seq<BloodValue>, k: int)
    requires
        latest_props(t, prev),
        0 <= k < prev.len(),
        prev[k].name@ == v.name@,
    ensures
        latest_props(t.push(v), prev.update(k, v)),
{
    let flat = t.push(v);
    let r = prev.update(k, v);
    lemma_prev_positions(t, v, prev);
    assert forall|i: int| 0 <= i < r.len() implies exists|w: int| is_last_of_name(flat, w) && #[trigger] r[i] == flat[w] by {
        if i == k {
            lemma_last_final(t, v);
        } else {
            let w = choose|w: int| is_last_of_name(t, w) && prev[i] == t[w];
            lemma_last_extend(t, v, w);
        }
    }
    assert forall|q: int| 0 <= q < flat.len() implies exists|i: int| 0 <= i < r.len() && (#[trigger] r[i]).name@ == (
    #[trigger] flat[q]).name@ by {
        if q < t.len() {
            assert(flat[q] == t[q]);
            let i = choose|i: int| 0 <= i < prev.len() && (#[trigger] prev[i]).name@ == (#[trigger] t[q]).name@;
            assert(r[i].name@ == prev[i].name@);
        } else {
            assert(r[k].name@ == flat[q].name@);
        }
    }
    assert forall|i: int, j: int| 0 <= i < j < r.len() implies name_pos(flat, (#[trigger] r[i]).name@) < name_pos(
        flat,
        (#[trigger] r[j]).name@,
    ) by {
        assert(r[i].name@ == prev[i].name@);
        assert(r[j].name@ == prev[j].name@);
    }
}

proof fn lemma_latest_step_new(t: Seq<BloodValue>, v: BloodValue, prev: Seq<BloodValue>)
    requires
        latest_props(t, prev),
        forall|i: int| 0 <= i < prev.len() ==> (#[trigger] prev[i]).name@ != v.name@,
    ensures
        latest_props(t.push(v), prev.push(v)),
{
    let flat = t.push(v);
    let r = prev.push(v);
    lemma_prev_positions(t, v, prev);
    assert(!measured(t, v.name@)) by {
        if measured(t, v.name@) {
            let q = choose|q: int| 0 <= q < t.len() && (#[trigger] t[q]).name@ == v.name@;
            let i = choose|i: int| 0 <= i < prev.len() && (#[trigger] prev[i]).name@ == (#[trigger] t[q]).name@;
            assert(prev[i].name@ != v.name@);
        }
    }
    lemma_name_pos_measured(t, v.name@);
    lemma_name_pos_push(t, v, v.name@);
    assert forall|i: int| 0 <= i < r.len() implies exists|w: int| is_last_of_name(flat, w) && #[trigger] r[i] == flat[w] by {
        if i == prev.len() {
            lemma_last_final(t, v);
        } else {
            let w = choose|w: int| is_last_of_name(t, w) && prev[i] == t[w];
            assert(prev[i].name@ != v.name@);
            lemma_last_extend(t, v, w);
        }
    }
    assert forall|q: int| 0 <= q < flat.len() implies exists|i: int| 0 <= i < r.len() && (#[trigger] r[i]).name@ == (
    #[trigger] flat[q]).name@ by {
        if q < t.len() {
            assert(flat[q] == t[q]);
            let i = choose|i: int| 0 <= i < prev.len() && (#[trigger] prev[i]).name@ == (#[trigger] t[q]).name@;
            assert(r[i] == prev[i]);
        } else {
            assert(r[prev.len() as int] == flat[q]);
        }
    }
    assert forall|i: int, j: int| 0 <= i < j < r.len() implies name_pos(flat, (#[trigger] r[i]).name@) < name_pos(
        flat,
        (#[trigger] r[j]).name@,
    ) by {
        assert(r[i] == prev[i]);
        if j < prev.len() {
            assert(r[j] == prev[j]);
        }
    }
}

/// The latest-values list holds each measured analyte exactly once, in the
/// order of the analytes' first measurements, and for each its last
/// measurement.
pub proof fn lemma_latest_values(flat: Seq<BloodValue>)
    ensures
        latest_props(flat, latest_values(flat)),
        forall|i: int, j: int| 0 <= i < j < latest_values(flat).len() ==> (#[trigger] latest_values(flat)[i]).name@
            != (#[trigger] latest_values(flat)[j]).name@,
    decreases flat.len(),
{
    let r = latest_values(flat);
    if flat.len() > 0 {
        let t = flat.drop_last();
        let v = flat.last();
        let prev = latest_values(t);
        lemma_latest_values(t);
        assert(flat =~= t.push(v));
        lemma_name_pos(prev, v.name@);
        let k = name_pos(prev, v.name@);
        if k < prev.len() {
            lemma_latest_step_found(t, v, prev, k);
        } else {
            lemma_latest_step_new(t, v, prev);
        }
    }
    assert forall|i: int, j: int| 0 <= i < j < r.len() implies (#[trigger] r[i]).name@ != (#[trigger] r[j]).name@ by {
        assert(name_pos(flat, r[i].name@) < name_pos(flat, r[j].name@));
    }
}

/// Position of the first of `s` named `name`, or `s.len()`.
fn find_name(s: &[BloodValue], name: &str) -> (k: usize)
    ensures
        k == name_pos(s@, name@),
{
    let mut k: usize = 0;
    while k < s.len()
        invariant
            k <= s@.len(),
            forall|j: int| 0 <= j < k ==> (#[trigger] s@[j]).name@ != name@,
        decreases s@.len() - k,
    {
        if str_eq(s[k].name.as_str(), name) {
            proof {
                lemma_name_pos_unique(s@, name@, k as int);
            }
            return k;
        }
        k = k + 1;
    }
    proof {
        lemma_name_pos_unique(s@, name@, k as int);
    }
    k
}

/// The latest measurement of each analyte over all entries (oldest first):
/// a later measurement wins, and analytes keep the order in which they first
/// appear.
pub fn collect_latest_values(user_data: &UserData) -> (r: Vec<BloodValue>)
    ensures
        r@ == latest_values(all_values(user_data.entries@)),
{
    let entries = &user_data.entries;
    let mut r: Vec<BloodValue> = Vec::new();
    let mut e: usize = 0;
    while e < entries.len()
        invariant
            e <= entries@.len(),
            r@ == latest_values(all_values(entries@.take(e as int))),
        decreases entries@.len() - e,
    {
        let vals = &entries[e].values;
        let ghost before = all_values(entries@.take(e as int));
        let mut k: usize = 0;
        assert(before + vals@.take(0) =~= before);
        while k < vals.len()
            invariant
                k <= vals@.len(),
                r@ == latest_values(before + vals@.take(k as int)),
            decreases vals@.len() - k,
        {
            let bv = &vals[k];
            proof {
                let cur = before + vals@.take(k as int + 1);
                assert(cur.drop_last() =~= before + vals@.take(k as int));
                assert(cur.last() == *bv);
            }
            let pos = find_name(r.as_slice(), bv.name.as_str());
            if pos < r.len() {
                r.set(pos, bv.duplicate());
            } else {
                r.push(bv.duplicate());
            }
            k = k + 1;
        }
        proof {
            let next = entries@.take(e as int + 1);
            assert(next.drop_last() =~= entries@.take(e as int));
            assert(next.last() == entries@[e as int]);
            assert(vals@.take(vals@.len() as int) =~= vals@);
        }
        e = e + 1;
    }
    assert(entries@.take(entries@.len() as int) =~= entries@);
    r
}

/// The history of analyte `name` (exact name) across all entries, oldest
/// first: for each entry that measured it, its date, the value and unit of
/// its first measurement of that name, and the entry's id.
pub fn collect_history_for(user_data: &UserData, name: &str) -> (r: Vec<ValueHistoryPoint>)
    ensures
        r@ == history_for(user_data.entries@, name@),
{
    let entries = &user_data.entries;
    let mut r: Vec<ValueHistoryPoint> = Vec::new();
    let mut e: usize = 0;
    while e < entries.len()
        invariant
            e <= entries@.len(),
            r@ == history_for(entries@.take(e as int), name@),
        decreases entries@.len() - e,
    {
        let entry = &entries[e];
        let k = find_name(entry.values.as_slice(), name);
        proof {
            let next = entries@.take(e as int + 1);
            assert(next.drop_last() =~= entries@.take(e as int));
            assert(next.last() == *entry);
        }
        if k < entry.values.len() {
            let v = &entry.values[k];
            r.push(
                ValueHistoryPoint {
                    date: entry.date.clone(),
                    value: v.value,
                    unit: v.unit.clone(),
                    entry_id: entry.id.clone(),
                },
            );
        }
        e = e + 1;
    }
    assert(entries@.take(entries@.len() as int) =~= entries@);
    r
}

/// A category and the positions of its values, in order.
#[derive(Debug, Clone)]
pub struct CategoryGroup {
    pub category: String,
    pub members: Vec<usize>,
}

/// A group as its category text and member positions.
pub open spec fn group_view(g: CategoryGroup) -> (Seq<char>, Seq<usize>) {
    (g.category@, g.members@)
}

/// Position of the group of category `c`, or `gs.len()` when there is none.
pub open spec fn group_pos(gs: Seq<(Seq<char>, Seq<usize>)>, c: Seq<char>) -> int
    decreases gs.len(),
{
    if gs.len() == 0 {
        0
    } else {
        let p = group_pos(gs.drop_last(), c);
        if p < gs.len() - 1 {
            p
        } else if gs.last().0 == c {
            gs.len() - 1
        } else {
            gs.len() as int
        }
    }
}

/// The categories of `values` in order of first appearance, each with the
/// positions of its values in increasing order.
pub open spec fn category_groups(values: Seq<BloodValue>) -> Seq<(Seq<char>, Seq<usize>)>
    decreases values.len(),
{
    if values.len() == 0 {
        Seq::empty()
    } else {
        let prev = category_groups(values.drop_last());
        let i = (values.len() - 1) as usize;
        let c = values.last().category@;
        let k = group_pos(prev, c);
        if k < prev.len() {
            prev.update(k, (c, prev[k].1.push(i)))
        } else {
            prev.push((c, seq![i]))
        }
    }
}

proof fn lemma_group_pos(gs: Seq<(Seq<char>, Seq<usize>)>, c: Seq<char>)
    ensures
        0 <= group_pos(gs, c) <= gs.len(),
        group_pos(gs, c) < gs.len() ==> gs[group_pos(gs, c)].0 == c,
    decreases gs.len(),
{
    if gs.len() > 0 {
        lemma_group_pos(gs.drop_last(), c);
    }
}

proof fn lemma_group_pos_unique(gs: Seq<(Seq<char>, Seq<usize>)>, c: Seq<char>, k: int)
    requires
        0 <= k <= gs.len(),
        k < gs.len() ==> gs[k].0 == c,
        forall|j: int| 0 <= j < k ==> (#[trigger] gs[j]).0 != c,
    ensures
        k == group_pos(gs, c),
    decreases gs.len(),
{
    if gs.len() > 0 {
        let t = gs.drop_last();
        if k < gs.len() - 1 {
            assert forall|j: int| 0 <= j < k implies (#[trigger] t[j]).0 != c by {
                assert(t[j] == gs[j]);
            }
            lemma_group_pos_unique(t, c, k);
        } else {
            assert forall|j: int| 0 <= j < t.len() implies (#[trigger] t[j]).0 != c by {
                assert(t[j] == gs[j]);
            }
            lemma_group_pos_unique(t, c, t.len() as int);
        }
    }
}

/// Position of the group of category `c` in `gs`, or `gs.len()`.
fn find_group(gs: &Vec<CategoryGroup>, c: &str) -> (k: usize)
    ensures
        k == group_pos(gs@.map_values(|g: CategoryGroup| group_view(g)), c@),
{
    let ghost v = gs@.map_values(|g: CategoryGroup| group_view(g));
    let mut k: usize = 0;
    while k < gs.len()
        invariant
            k <= gs@.len(),
            v == gs@.map_values(|g: CategoryGroup| group_view(g)),
            forall|j: int| 0 <= j < k ==> (#[trigger] v[j]).0 != c@,
        decreases gs@.len() - k,
    {
        if str_eq(gs[k].category.as_str(), c) {
            proof {
                lemma_group_pos_unique(v, c@, k as int);
            }
            return k;
        }
        k = k + 1;
    }
    proof {
        lemma_group_pos_unique(v, c@, k as int);
    }
    k
}

/// Groups `values` by category, categories in order of first appearance.
pub fn group_by_category(values: &[BloodValue]) -> (r: Vec<CategoryGroup>)
    ensures
        r@.map_values(|g: CategoryGroup| group_view(g)) == category_groups(values@),
{
    let mut r: Vec<CategoryGroup> = Vec::new();
    let mut i: usize = 0;
    while i < values.len()
        invariant
            i <= values@.len(),
            r@.map_values(|g: CategoryGroup| group_view(g)) == category_groups(values@.take(i as int)),
        decreases values@.len() - i,
    {
        let bv = &values[i];
        let ghost prev = r@.map_values(|g: CategoryGroup| group_view(g));
        proof {
            let cur = values@.take(i as int + 1);
            assert(cur.drop_last() =~= values@.take(i as int));
            assert(cur.last() == *bv);
        }
        let k = find_group(&r, bv.category.as_str());
        proof {
            lemma_group_pos(prev, bv.category@);
        }
        if k < r.len() {
            let ghost old_r = r@;
            r[k].members.push(i);
            proof {
                assert(old_r.map_values(|g: CategoryGroup| group_view(g))[k as int] == group_view(old_r[k as int]));
                assert forall|j: int| 0 <= j < r@.len() && j != k implies r@[j] == old_r[j] by {}
                let nv = r@.map_values(|g: CategoryGroup| group_view(g));
                let want = prev.update(k as int, (bv.category@, prev[k as int].1.push(i)));
                assert forall|j: int| 0 <= j < r@.len() implies #[trigger] nv[j] == want[j] by {
                    if j != k {
                        assert(prev[j] == group_view(old_r[j]));
                    }
                }
            }
            assert(r@.map_values(|g: CategoryGroup| group_view(g)) =~= prev.update(
                k as int,
                (bv.category@, prev[k as int].1.push(i)),
            ));
        } else {
            let ghost old_r = r@;
            let mut members: Vec<usize> = Vec::new();
            members.push(i);
            r.push(CategoryGroup { category: bv.category.clone(), members });
            proof {
                let nv = r@.map_values(|g: CategoryGroup| group_view(g));
                let want = prev.push((bv.category@, seq![i]));
                assert(members@ =~= seq![i]);
                assert forall|j: int| 0 <= j < r@.len() implies #[trigger] nv[j] == want[j] by {
                    if j < old_r.len() {
                        assert(r@[j] == old_r[j]);
                        assert(prev[j] == group_view(old_r[j]));
                    }
                }
            }
            assert(r@.map_values(|g: CategoryGroup| group_view(g)) =~= prev.push((bv.category@, seq![i])));
        }
        i = i + 1;
    }
    assert(values@.take(values@.len() as int) =~= values@);
    r
}

} // verus!
