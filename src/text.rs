use vstd::prelude::*;

verus! {

/// ASCII lower-casing of one character; other characters are unchanged.
pub open spec fn ascii_lower(c: char) -> char {
    if 'A' <= c && c <= 'Z' {
        (((c as u8) + 32) as u8) as char
    } else {
        c
    }
}

/// Two character sequences are equal up to ASCII case.
pub open spec fn eq_ignore_ascii_case_spec(a: Seq<char>, b: Seq<char>) -> bool {
    a.len() == b.len() && forall|i: int| 0 <= i < a.len() ==> ascii_lower(#[trigger] a[i]) == ascii_lower(b[i])
}

fn lower_char(c: char) -> (r: char)
    ensures
        r == ascii_lower(c),
{
    if 'A' <= c && c <= 'Z' {
        ((c as u8) + 32u8) as char
    } else {
        c
    }
}

/// Whether two strings are equal.
pub fn str_eq(a: &str, b: &str) -> (r: bool)
    ensures
        r == (a@ == b@),
{
    let n = a.unicode_len();
    if n != b.unicode_len() {
        return false;
    }
    let mut i: usize = 0;
    while i < n
        invariant
            n == a@.len(),
            n == b@.len(),
            i <= n,
            forall|j: int| 0 <= j < i ==> a@[j] == b@[j],
        decreases n - i,
    {
        if a.get_char(i) != b.get_char(i) {
            return false;
        }
        i = i + 1;
    }
    assert(a@ =~= b@);
    true
}

/// Whether two strings are equal up to ASCII case.
pub fn eq_ignore_ascii_case(a: &str, b: &str) -> (r: bool)
    ensures
        r == eq_ignore_ascii_case_spec(a@, b@),
{
    let n = a.unicode_len();
    if n != b.unicode_len() {
        return false;
    }
    let mut i: usize = 0;
    while i < n
        invariant
            n == a@.len(),
            n == b@.len(),
            i <= n,
            forall|j: int| 0 <= j < i ==> ascii_lower(#[trigger] a@[j]) == ascii_lower(b@[j]),
        decreases n - i,
    {
        if lower_char(a.get_char(i)) != lower_char(b.get_char(i)) {
            return false;
        }
        i = i + 1;
    }
    true
}

} // verus!

verus! {

/// Relies on std's `String::push`: it appends one character.
pub assume_specification[ String::push ](s: &mut String, ch: char)
    ensures
        final(s)@ == old(s)@.push(ch),
;

/// The decimal digit character of `d < 10`.
pub open spec fn digit_char(d: nat) -> char {
    (('0' as u32) + d) as char
}

/// The decimal representation of `n`, without leading zeros.
pub open spec fn nat_digits(n: nat) -> Seq<char>
    decreases n,
{
    if n < 10 {
        seq![digit_char(n)]
    } else {
        nat_digits(n / 10).push(digit_char(n % 10))
    }
}

/// The digit character of `d < 10`.
pub fn digit(d: u128) -> (c: char)
    requires
        d < 10,
    ensures
        c == digit_char(d as nat),
{
    let b: u8 = d as u8;
    let r = (48u8 + b) as char;
    assert(('0' as u32) == 48);
    r
}

/// Appends the decimal representation of `n` to `s`.
pub fn push_digits(s: &mut String, n: u128)
    ensures
        final(s)@ == old(s)@ + nat_digits(n as nat),
    decreases n,
{
    if n >= 10 {
        push_digits(s, n / 10);
    }
    s.push(digit(n % 10));
    proof {
        if n >= 10 {
            assert(old(s)@ + nat_digits(n as nat) =~= old(s)@ + nat_digits((n / 10) as nat) + seq![digit_char((n % 10) as nat)]);
        } else {
            assert(old(s)@ + nat_digits(n as nat) =~= old(s)@.push(digit_char(n as nat)));
        }
    }
}

/// Positions of `c` in `s`, in increasing order.
pub open spec fn positions_of(s: Seq<char>, c: char) -> Seq<int>
    decreases s.len(),
{
    if s.len() == 0 {
        Seq::empty()
    } else if s.last() == c {
        positions_of(s.drop_last(), c).push(s.len() - 1)
    } else {
        positions_of(s.drop_last(), c)
    }
}

proof fn lemma_positions_in_range(s: Seq<char>, c: char)
    ensures
        forall|k: int| 0 <= k < positions_of(s, c).len() ==> {
            let p = #[trigger] positions_of(s, c)[k];
            0 <= p < s.len() && s[p] == c
        },
        forall|k: int, l: int| 0 <= k < l < positions_of(s, c).len() ==> positions_of(s, c)[k] < positions_of(s, c)[l],
    decreases s.len(),
{
    if s.len() > 0 {
        let t = s.drop_last();
        lemma_positions_in_range(t, c);
        let pt = positions_of(t, c);
        let ps = positions_of(s, c);
        assert forall|k: int| 0 <= k < pt.len() implies 0 <= #[trigger] pt[k] < s.len() - 1 && s[pt[k]] == c by {
            assert(t[pt[k]] == s[pt[k]]);
        }
        if s.last() == c {
            assert(ps == pt.push(s.len() - 1));
            assert forall|k: int| 0 <= k < ps.len() implies {
                let p = #[trigger] ps[k];
                0 <= p < s.len() && s[p] == c
            } by {
                if k < pt.len() {
                    assert(ps[k] == pt[k]);
                }
            }
            assert forall|k: int, l: int| 0 <= k < l < ps.len() implies ps[k] < ps[l] by {
                assert(ps[k] == pt[k]);
                if l < pt.len() {
                    assert(ps[l] == pt[l]);
                }
            }
        } else {
            assert(ps == pt);
        }
    }
}

/// The positions of `c` in `s`.
pub fn find_positions(s: &str, c: char) -> (r: Vec<usize>)
    ensures
        r@.map_values(|p: usize| p as int) == positions_of(s@, c),
        forall|k: int| 0 <= k < r@.len() ==> r@[k] < s@.len() && s@[r@[k] as int] == c,
        forall|k: int, l: int| 0 <= k < l < r@.len() ==> r@[k] < r@[l],
{
    let n = s.unicode_len();
    let mut r: Vec<usize> = Vec::new();
    let mut i: usize = 0;
    while i < n
        invariant
            n == s@.len(),
            i <= n,
            r@.map_values(|p: usize| p as int) == positions_of(s@.take(i as int), c),
        decreases n - i,
    {
        proof {
            assert(s@.take(i as int + 1).drop_last() =~= s@.take(i as int));
        }
        if s.get_char(i) == c {
            r.push(i);
            assert(r@.map_values(|p: usize| p as int) =~= positions_of(s@.take(i as int), c).push(i as int));
        }
        i = i + 1;
    }
    assert(s@.take(n as int) =~= s@);
    proof {
        lemma_positions_in_range(s@, c);
        assert forall|k: int| 0 <= k < r@.len() implies r@[k] < s@.len() && s@[r@[k] as int] == c by {
            assert(r@.map_values(|p: usize| p as int)[k] == r@[k] as int);
        }
        assert forall|k: int, l: int| 0 <= k < l < r@.len() implies r@[k] < r@[l] by {
            assert(r@.map_values(|p: usize| p as int)[k] == r@[k] as int);
            assert(r@.map_values(|p: usize| p as int)[l] == r@[l] as int);
        }
    }
    r
}

/// A date "YYYY-MM-DD" as "DD.MM"; a string that does not split into
/// exactly three parts at '-' is returned unchanged.
pub open spec fn date_short_spec(s: Seq<char>) -> Seq<char> {
    let p = positions_of(s, '-');
    if p.len() == 2 {
        s.subrange(p[1] + 1, s.len() as int) + seq!['.'] + s.subrange(p[0] + 1, p[1])
    } else {
        s
    }
}

/// A date "YYYY-MM-DD" as "DD.MM.YYYY"; a string that does not split into
/// exactly three parts at '-' is returned unchanged.
pub open spec fn date_long_spec(s: Seq<char>) -> Seq<char> {
    let p = positions_of(s, '-');
    if p.len() == 2 {
        s.subrange(p[1] + 1, s.len() as int) + seq!['.'] + s.subrange(p[0] + 1, p[1]) + seq!['.'] + s.subrange(0, p[0])
    } else {
        s
    }
}

/// Formats a date as day and month: "2024-03-15" becomes "15.03".
pub fn format_date_short(date_str: &str) -> (r: String)
    ensures
        r@ == date_short_spec(date_str@),
{
    let p = find_positions(date_str, '-');
    if p.len() == 2 {
        let n = date_str.unicode_len();
        let mut out = String::from_str(date_str.substring_char(p[1] + 1, n));
        out.push('.');
        out.append(date_str.substring_char(p[0] + 1, p[1]));
        assert(p@.map_values(|q: usize| q as int)[0] == p@[0] as int);
        assert(p@.map_values(|q: usize| q as int)[1] == p@[1] as int);
        out
    } else {
        String::from_str(date_str)
    }
}

/// Formats a date as day, month and year: "2024-03-15" becomes "15.03.2024".
pub fn format_date(date_str: &str) -> (r: String)
    ensures
        r@ == date_long_spec(date_str@),
{
    let p = find_positions(date_str, '-');
    if p.len() == 2 {
        let n = date_str.unicode_len();
        let mut out = String::from_str(date_str.substring_char(p[1] + 1, n));
        out.push('.');
        out.append(date_str.substring_char(p[0] + 1, p[1]));
        out.push('.');
        out.append(date_str.substring_char(0, p[0]));
        assert(p@.map_values(|q: usize| q as int)[0] == p@[0] as int);
        assert(p@.map_values(|q: usize| q as int)[1] == p@[1] as int);
        out
    } else {
        String::from_str(date_str)
    }
}

/// `s` without its trailing `c` characters.
pub open spec fn trim_end(s: Seq<char>, c: char) -> Seq<char>
    decreases s.len(),
{
    if s.len() > 0 && s.last() == c {
        trim_end(s.drop_last(), c)
    } else {
        s
    }
}

} // verus!
