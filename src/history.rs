use vstd::prelude::*;
use crate::types::ValueHistoryPoint;

verus! {

/// `a` sorts strictly before `b` in lexicographic character order (the order
/// of `str`'s comparison, as UTF-8 keeps code point order).
pub open spec fn text_before(a: Seq<char>, b: Seq<char>) -> bool
    decreases a.len(),
{
    if a.len() == 0 {
        b.len() > 0
    } else if b.len() == 0 {
        false
    } else if a[0] != b[0] {
        (a[0] as u32) < (b[0] as u32)
    } else {
        text_before(a.drop_first(), b.drop_first())
    }
}

proof fn lemma_text_before_suffix(a: Seq<char>, b: Seq<char>, i: int)
    requires
        0 <= i <= a.len(),
        i <= b.len(),
        forall|j: int| 0 <= j < i ==> a[j] == b[j],
    ensures
        text_before(a, b) == text_before(a.subrange(i, a.len() as int), b.subrange(i, b.len() as int)),
    decreases i,
{
    if i > 0 {
        let a1 = a.drop_first();
        let b1 = b.drop_first();
        assert forall|j: int| 0 <= j < i - 1 implies a1[j] == b1[j] by {
            assert(a[j + 1] == b[j + 1]);
        }
        lemma_text_before_suffix(a1, b1, i - 1);
        assert(a1.subrange(i - 1, a1.len() as int) =~= a.subrange(i, a.len() as int));
        assert(b1.subrange(i - 1, b1.len() as int) =~= b.subrange(i, b.len() as int));
    } else {
        assert(a.subrange(0, a.len() as int) =~= a);
        assert(b.subrange(0, b.len() as int) =~= b);
    }
}

/// Whether `a` sorts strictly before `b`.
pub fn str_before(a: &str, b: &str) -> (r: bool)
    ensures
        r == text_before(a@, b@),
{
    let n = a.unicode_len();
    let m = b.unicode_len();
    let mut i: usize = 0;
    while i < n && i < m && a.get_char(i) == b.get_char(i)
        invariant
            n == a@.len(),
            m == b@.len(),
            i <= n,
            i <= m,
            forall|j: int| 0 <= j < i ==> a@[j] == b@[j],
        decreases n - i,
    {
        i = i + 1;
    }
    proof {
        lemma_text_before_suffix(a@, b@, i as int);
    }
    if i == n {
        i < m
    } else if i == m {
        false
    } else {
        let ca = a.get_char(i);
        let cb = b.get_char(i);
        proof {
            let sa = a@.subrange(i as int, n as int);
            let sb = b@.subrange(i as int, m as int);
            assert(sa[0] == ca && sb[0] == cb);
        }
        (ca as u32) < (cb as u32)
    }
}

/// Position at which `p` joins the newest-first list `s`: after every
/// point whose date is not before `p`'s, so equal dates keep their order.
pub open spec fn insert_pos(s: Seq<ValueHistoryPoint>, p: ValueHistoryPoint) -> int
    decreases s.len(),
{
    if s.len() == 0 {
        0
    } else {
        let k = insert_pos(s.drop_last(), p);
        if k < s.len() - 1 {
            k
        } else if text_before(s.last().date@, p.date@) {
            s.len() - 1
        } else {
            s.len() as int
        }
    }
}

/// The points of `h` ordered newest first by date text, points of equal date
/// in their input order (a stable sort, descending).
pub open spec fn newest_first_spec(h: Seq<ValueHistoryPoint>) -> Seq<ValueHistoryPoint>
    decreases h.len(),
{
    if h.len() == 0 {
        Seq::empty()
    } else {
        let s = newest_first_spec(h.drop_last());
        s.insert(insert_pos(s, h.last()), h.last())
    }
}

proof fn lemma_insert_pos(s: Seq<ValueHistoryPoint>, p: ValueHistoryPoint)
    ensures
        0 <= insert_pos(s, p) <= s.len(),
        insert_pos(s, p) < s.len() ==> text_before(s[insert_pos(s, p)].date@, p.date@),
        forall|j: int| 0 <= j < insert_pos(s, p) ==> !text_before((#[trigger] s[j]).date@, p.date@),
    decreases s.len(),
{
    if s.len() > 0 {
        let t = s.drop_last();
        lemma_insert_pos(t, p);
        assert forall|j: int| 0 <= j < insert_pos(s, p) implies !text_before((#[trigger] s[j]).date@, p.date@) by {
            if j < t.len() {
                assert(s[j] == t[j]);
            }
        }
    }
}

proof fn lemma_insert_pos_unique(s: Seq<ValueHistoryPoint>, p: ValueHistoryPoint, k: int)
    requires
        0 <= k <= s.len(),
        k < s.len() ==> text_before(s[k].date@, p.date@),
        forall|j: int| 0 <= j < k ==> !text_before((#[trigger] s[j]).date@, p.date@),
    ensures
        k == insert_pos(s, p),
{
    lemma_insert_pos(s, p);
    let q = insert_pos(s, p);
    if k < q {
        assert(!text_before(s[k].date@, p.date@));
    } else if q < k {
        assert(!text_before(s[q].date@, p.date@));
    }
}

/// The history newest first by date, equal dates in their input order.
pub fn newest_first(history: &[ValueHistoryPoint]) -> (r: Vec<ValueHistoryPoint>)
    ensures
        r@ == newest_first_spec(history@),
{
    let mut r: Vec<ValueHistoryPoint> = Vec::new();
    let mut i: usize = 0;
    while i < history.len()
        invariant
            i <= history@.len(),
            r@ == newest_first_spec(history@.take(i as int)),
        decreases history@.len() - i,
    {
        let p = &history[i];
        proof {
            let cur = history@.take(i as int + 1);
            assert(cur.drop_last() =~= history@.take(i as int));
            assert(cur.last() == *p);
        }
        let mut k: usize = 0;
        while k < r.len() && !str_before(r[k].date.as_str(), p.date.as_str())
            invariant
                k <= r@.len(),
                forall|j: int| 0 <= j < k ==> !text_before((#[trigger] r@[j]).date@, p.date@),
            decreases r@.len() - k,
        {
            k = k + 1;
        }
        proof {
            if k < r@.len() {
                assert(text_before(r@[k as int].date@, p.date@));
            }
            lemma_insert_pos_unique(r@, *p, k as int);
        }
        r.insert(k, p.duplicate());
        i = i + 1;
    }
    assert(history@.take(history@.len() as int) =~= history@);
    r
}

proof fn lemma_before_irreflexive(a: Seq<char>)
    ensures
        !text_before(a, a),
    decreases a.len(),
{
    if a.len() > 0 {
        lemma_before_irreflexive(a.drop_first());
    }
}

proof fn lemma_before_transitive(a: Seq<char>, b: Seq<char>, c: Seq<char>)
    requires
        text_before(a, b),
        text_before(b, c),
    ensures
        text_before(a, c),
    decreases a.len(),
{
    if a.len() > 0 && b.len() > 0 && c.len() > 0 && a[0] == b[0] && b[0] == c[0] {
        lemma_before_transitive(a.drop_first(), b.drop_first(), c.drop_first());
    }
}

proof fn lemma_before_total(a: Seq<char>, b: Seq<char>)
    requires
        !text_before(a, b),
        !text_before(b, a),
    ensures
        a == b,
    decreases a.len(),
{
    if a.len() > 0 && b.len() > 0 {
        if a[0] == b[0] {
            lemma_before_total(a.drop_first(), b.drop_first());
            assert(a =~= seq![a[0]] + a.drop_first());
            assert(b =~= seq![b[0]] + b.drop_first());
        } else {
            vstd::utf8::char_u32_cast(a[0], a[0] as u32);
            vstd::utf8::char_u32_cast(b[0], b[0] as u32);
            assert((a[0] as u32) != (b[0] as u32));
        }
    } else {
        assert(a.len() == 0 && b.len() == 0);
        assert(a =~= b);
    }
}

/// In newest-first order, no date sorts before a later one.
pub open spec fn newest_first_ordered(s: Seq<ValueHistoryPoint>) -> bool {
    forall|i: int, j: int| 0 <= i < j < s.len() ==> !text_before((#[trigger] s[i]).date@, (#[trigger] s[j]).date@)
}

/// The newest-first list holds the same points as the history and is
/// ordered by date, newest first.
pub proof fn lemma_newest_first(h: Seq<ValueHistoryPoint>)
    ensures
        newest_first_spec(h).to_multiset() == h.to_multiset(),
        newest_first_ordered(newest_first_spec(h)),
    decreases h.len(),
{
    broadcast use vstd::seq_lib::group_to_multiset_ensures;

    if h.len() > 0 {
        let t = h.drop_last();
        let p = h.last();
        let s = newest_first_spec(t);
        lemma_newest_first(t);
        lemma_insert_pos(s, p);
        let k = insert_pos(s, p);
        let r = s.insert(k, p);
        vstd::seq_lib::to_multiset_insert(s, k, p);
        assert(h =~= t.push(p));
        assert forall|j: int| k <= j < s.len() implies !text_before(p.date@, (#[trigger] s[j]).date@) by {
            // s[j] is not after s[k], and s[k] sorts before p
            if j > k {
                assert(!text_before(s[k].date@, s[j].date@));
                if text_before(s[j].date@, s[k].date@) {
                    lemma_before_transitive(s[j].date@, s[k].date@, p.date@);
                } else {
                    lemma_before_total(s[j].date@, s[k].date@);
                }
            }
            if text_before(p.date@, s[j].date@) {
                lemma_before_transitive(s[j].date@, p.date@, s[j].date@);
                lemma_before_irreflexive(s[j].date@);
            }
        }
        assert forall|i: int, j: int| 0 <= i < j < r.len() implies !text_before((#[trigger] r[i]).date@, (#[trigger] r[j]).date@) by {
            if j < k {
                assert(r[i] == s[i] && r[j] == s[j]);
            } else if j == k {
                assert(r[i] == s[i] && r[j] == p);
            } else if i < k {
                assert(r[i] == s[i] && r[j] == s[j - 1]);
            } else if i == k {
                assert(r[i] == p && r[j] == s[j - 1]);
            } else {
                assert(r[i] == s[i - 1] && r[j] == s[j - 1]);
            }
        }
    }
}

} // verus!
