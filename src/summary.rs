use vstd::prelude::*;
use crate::types::{BloodValue, ReferenceValue};
use crate::text::{eq_ignore_ascii_case, eq_ignore_ascii_case_spec};
use crate::status::{ValueStatus, get_value_status, status_of, gender_view};

verus! {

/// Entry `r` answers to `name`: its name or one of its aliases equals
/// `name` up to ASCII case.
pub open spec fn ref_matches(r: ReferenceValue, name: Seq<char>) -> bool {
    eq_ignore_ascii_case_spec(r.name@, name)
        || exists|k: int| 0 <= k < r.aliases@.len() && eq_ignore_ascii_case_spec(#[trigger] r.aliases@[k]@, name)
}

/// `i` is the position of the first entry of `db` that answers to `name`.
pub open spec fn is_first_match(db: Seq<ReferenceValue>, name: Seq<char>, i: int) -> bool {
    0 <= i < db.len() && ref_matches(db[i], name) && forall|j: int| 0 <= j < i ==> !ref_matches(#[trigger] db[j], name)
}

/// The first entry of `db` that answers to `name`, if any.
pub open spec fn lookup(db: Seq<ReferenceValue>, name: Seq<char>) -> Option<ReferenceValue> {
    if exists|i: int| is_first_match(db, name, i) {
        Some(db[choose|i: int| is_first_match(db, name, i)])
    } else {
        None
    }
}

proof fn lemma_first_match_unique(db: Seq<ReferenceValue>, name: Seq<char>, i: int, j: int)
    requires
        is_first_match(db, name, i),
        is_first_match(db, name, j),
    ensures
        i == j,
{
    if i < j {
        assert(!ref_matches(db[i], name));
    } else if j < i {
        assert(!ref_matches(db[j], name));
    }
}

/// Whether `r` answers to `name`.
fn answers_to(r: &ReferenceValue, name: &str) -> (b: bool)
    ensures
        b == ref_matches(*r, name@),
{
    if eq_ignore_ascii_case(r.name.as_str(), name) {
        return true;
    }
    let mut k: usize = 0;
    while k < r.aliases.len()
        invariant
            k <= r.aliases@.len(),
            forall|m: int| 0 <= m < k ==> !eq_ignore_ascii_case_spec(#[trigger] r.aliases@[m]@, name@),
        decreases r.aliases@.len() - k,
    {
        if eq_ignore_ascii_case(r.aliases[k].as_str(), name) {
            return true;
        }
        k = k + 1;
    }
    false
}

/// The first reference entry whose name or alias equals `name` up to ASCII case.
pub fn find_reference<'a>(db: &'a [ReferenceValue], name: &str) -> (r: Option<&'a ReferenceValue>)
    ensures
        match r {
            Some(v) => lookup(db@, name@) == Some(*v),
            None => lookup(db@, name@) is None,
        },
{
    let mut i: usize = 0;
    while i < db.len()
        invariant
            i <= db@.len(),
            forall|j: int| 0 <= j < i ==> !ref_matches(#[trigger] db@[j], name@),
        decreases db@.len() - i,
    {
        if answers_to(&db[i], name) {
            proof {
                assert(is_first_match(db@, name@, i as int));
                let c = choose|c: int| is_first_match(db@, name@, c);
                lemma_first_match_unique(db@, name@, i as int, c);
            }
            return Some(&db[i]);
        }
        i = i + 1;
    }
    None
}

/// The dashboard bucket that a status counts in.
#[derive(Debug, Clone, Copy, PartialEq, Eq, Structural)]
pub enum Bucket {
    Normal,
    Warning,
    Abnormal,
    Critical,
}

/// Critical statuses count as critical, high and low as abnormal, warning as
/// warning; normal and unknown count as normal.
pub open spec fn bucket_of_status(s: ValueStatus) -> Bucket {
    match s {
        ValueStatus::CriticalHigh | ValueStatus::CriticalLow => Bucket::Critical,
        ValueStatus::High | ValueStatus::Low => Bucket::Abnormal,
        ValueStatus::Warning => Bucket::Warning,
        ValueStatus::Normal | ValueStatus::Unknown => Bucket::Normal,
    }
}

/// The bucket of a measurement: that of its status against its reference
/// entry, or normal where no entry answers to its name.
pub open spec fn bucket_of(v: BloodValue, db: Seq<ReferenceValue>, gender: Option<Seq<char>>) -> Bucket {
    match lookup(db, v.name@) {
        Some(r) => bucket_of_status(status_of(v.value as int, r, gender)),
        None => Bucket::Normal,
    }
}

/// How many of `values` fall in bucket `b`.
pub open spec fn bucket_count(values: Seq<BloodValue>, db: Seq<ReferenceValue>, gender: Option<Seq<char>>, b: Bucket) -> nat
    decreases values.len(),
{
    if values.len() == 0 {
        0
    } else {
        bucket_count(values.drop_last(), db, gender, b) + if bucket_of(values.last(), db, gender) == b {
            1nat
        } else {
            0nat
        }
    }
}

/// Counts of the latest values per bucket; `total` counts them all.
#[derive(Debug, Default)]
pub struct StatusCounts {
    pub normal: usize,
    pub warning: usize,
    pub abnormal: usize,
    pub critical: usize,
    pub total: usize,
}

proof fn lemma_bucket_count_le(values: Seq<BloodValue>, db: Seq<ReferenceValue>, gender: Option<Seq<char>>, b: Bucket)
    ensures
        bucket_count(values, db, gender, b) <= values.len(),
    decreases values.len(),
{
    if values.len() > 0 {
        lemma_bucket_count_le(values.drop_last(), db, gender, b);
    }
}

/// The bucket of one measurement.
pub fn bucket_for(bv: &BloodValue, reference_db: &[ReferenceValue], gender: Option<&str>) -> (b: Bucket)
    ensures
        b == bucket_of(*bv, reference_db@, gender_view(gender)),
{
    match find_reference(reference_db, bv.name.as_str()) {
        Some(ref_val) => match get_value_status(bv.value, ref_val, gender) {
            ValueStatus::Normal | ValueStatus::Unknown => Bucket::Normal,
            ValueStatus::Warning => Bucket::Warning,
            ValueStatus::CriticalHigh | ValueStatus::CriticalLow => Bucket::Critical,
            ValueStatus::High | ValueStatus::Low => Bucket::Abnormal,
        },
        None => Bucket::Normal,
    }
}

/// Classifies each of `values` against its reference entry and counts the
/// buckets.
pub fn compute_summary_counts(values: &[BloodValue], reference_db: &[ReferenceValue], gender: Option<&str>) -> (r: StatusCounts)
    ensures
        r.total == values@.len(),
        r.normal == bucket_count(values@, reference_db@, gender_view(gender), Bucket::Normal),
        r.warning == bucket_count(values@, reference_db@, gender_view(gender), Bucket::Warning),
        r.abnormal == bucket_count(values@, reference_db@, gender_view(gender), Bucket::Abnormal),
        r.critical == bucket_count(values@, reference_db@, gender_view(gender), Bucket::Critical),
{
    let ghost g = gender_view(gender);
    let ghost db = reference_db@;
    let mut counts = StatusCounts { normal: 0, warning: 0, abnormal: 0, critical: 0, total: 0 };
    let mut i: usize = 0;
    while i < values.len()
        invariant
            i <= values@.len(),
            db == reference_db@,
            g == gender_view(gender),
            counts.total == i,
            counts.normal == bucket_count(values@.take(i as int), db, g, Bucket::Normal),
            counts.warning == bucket_count(values@.take(i as int), db, g, Bucket::Warning),
            counts.abnormal == bucket_count(values@.take(i as int), db, g, Bucket::Abnormal),
            counts.critical == bucket_count(values@.take(i as int), db, g, Bucket::Critical),
        decreases values@.len() - i,
    {
        let bv = &values[i];
        let ghost pre = values@.take(i as int);
        let ghost cur = values@.take(i as int + 1);
        proof {
            assert(cur.last() == values@[i as int]);
            lemma_bucket_count_le(pre, db, g, Bucket::Normal);
            lemma_bucket_count_le(pre, db, g, Bucket::Warning);
            lemma_bucket_count_le(pre, db, g, Bucket::Abnormal);
            lemma_bucket_count_le(pre, db, g, Bucket::Critical);
            let bi = bucket_of(values@[i as int], db, g);
            assert forall|b: Bucket| bucket_count(cur, db, g, b) == bucket_count(pre, db, g, b) + if bi == b {
                1nat
            } else {
                0nat
            } by {
                assert(cur.drop_last() =~= pre);
            }
        }
        counts.total = counts.total + 1;
        let b = bucket_for(bv, reference_db, gender);
        match b {
            Bucket::Normal => counts.normal = counts.normal + 1,
            Bucket::Warning => counts.warning = counts.warning + 1,
            Bucket::Abnormal => counts.abnormal = counts.abnormal + 1,
            Bucket::Critical => counts.critical = counts.critical + 1,
        }
        i = i + 1;
    }
    assert(values@.take(values@.len() as int) =~= values@);
    counts
}

/// Every value falls in exactly one bucket, so the four counts add up to the
/// total.
pub proof fn lemma_counts_partition(values: Seq<BloodValue>, db: Seq<ReferenceValue>, gender: Option<Seq<char>>)
    ensures
        bucket_count(values, db, gender, Bucket::Normal) + bucket_count(values, db, gender, Bucket::Warning)
            + bucket_count(values, db, gender, Bucket::Abnormal) + bucket_count(values, db, gender, Bucket::Critical)
            == values.len(),
    decreases values.len(),
{
    if values.len() > 0 {
        lemma_counts_partition(values.drop_last(), db, gender);
    }
}

/// The values whose status is critical, in order.
pub open spec fn critical_of(values: Seq<BloodValue>, db: Seq<ReferenceValue>, gender: Option<Seq<char>>) -> Seq<BloodValue> {
    values.filter(|v: BloodValue| bucket_of(v, db, gender) == Bucket::Critical)
}

/// The names of the values whose status against their reference entry is
/// critical (high or low), in order; for the alert banner.
pub fn critical_names(values: &[BloodValue], reference_db: &[ReferenceValue], gender: Option<&str>) -> (r: Vec<String>)
    ensures
        r@.map_values(|s: String| s@) == critical_of(values@, reference_db@, gender_view(gender)).map_values(
            |v: BloodValue| v.name@,
        ),
{
    let ghost pred = |v: BloodValue| bucket_of(v, reference_db@, gender_view(gender)) == Bucket::Critical;
    let mut r: Vec<String> = Vec::new();
    let mut i: usize = 0;
    while i < values.len()
        invariant
            i <= values@.len(),
            pred == (|v: BloodValue| bucket_of(v, reference_db@, gender_view(gender)) == Bucket::Critical),
            r@.map_values(|s: String| s@) == values@.take(i as int).filter(pred).map_values(|v: BloodValue| v.name@),
        decreases values@.len() - i,
    {
        let bv = &values[i];
        proof {
            reveal(Seq::filter);
            assert(values@.take(i as int + 1).drop_last() =~= values@.take(i as int));
            assert(values@.take(i as int + 1).last() == *bv);
        }
        if bucket_for(bv, reference_db, gender) == Bucket::Critical {
            let ghost old_r = r@;
            r.push(bv.name.clone());
            proof {
                let f = values@.take(i as int).filter(pred);
                let lhs = r@.map_values(|s: String| s@);
                let rhs = f.push(*bv).map_values(|v: BloodValue| v.name@);
                assert(old_r.map_values(|s: String| s@) == f.map_values(|v: BloodValue| v.name@));
                assert(old_r.map_values(|s: String| s@).len() == old_r.len());
                assert(f.map_values(|v: BloodValue| v.name@).len() == f.len());
                assert(r@.len() == old_r.len() + 1);
                assert(lhs.len() == rhs.len());
                assert forall|j: int| 0 <= j < lhs.len() implies lhs[j] == rhs[j] by {
                    if j < old_r.len() {
                        assert(r@[j] == old_r[j]);
                        assert(old_r.map_values(|s: String| s@)[j] == f.map_values(|v: BloodValue| v.name@)[j]);
                    }
                }
                assert(lhs =~= rhs);
            }
        }
        i = i + 1;
    }
    assert(values@.take(values@.len() as int) =~= values@);
    r
}

} // verus!
