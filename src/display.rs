use vstd::prelude::*;
use crate::chart::{fixed_string, format_fixed, UNIT};
use crate::text::{nat_digits, push_digits, trim_end};

verus! {

/// Integer `n` in decimal, with a '-' when negative.
pub open spec fn int_string(n: int) -> Seq<char> {
    if n < 0 {
        seq!['-'] + nat_digits((-n) as nat)
    } else {
        nat_digits(n as nat)
    }
}

/// The display text of a fixed-point value: a whole number without
/// decimals, else two decimals without trailing zeros or point.
pub open spec fn value_text(v: int) -> Seq<char> {
    if v % (UNIT as int) == 0 {
        int_string(v / (UNIT as int))
    } else {
        trim_end(trim_end(fixed_string(v, 2), '0'), '.')
    }
}

/// `s` without its trailing `c` characters.
fn trimmed(s: &str, c: char) -> (r: String)
    ensures
        r@ == trim_end(s@, c),
{
    let mut end = s.unicode_len();
    assert(s@.subrange(0, end as int) =~= s@);
    while end > 0 && s.get_char(end - 1) == c
        invariant
            end <= s@.len(),
            trim_end(s@.subrange(0, end as int), c) == trim_end(s@, c),
        decreases end,
    {
        proof {
            assert(s@.subrange(0, end as int).drop_last() =~= s@.subrange(0, end - 1));
        }
        end = end - 1;
    }
    String::from_str(s.substring_char(0, end))
}

/// A measured value as text: "5" for a whole number, else up to two
/// decimals ("4.5", "0.25").
pub fn format_value(v: i64) -> (r: String)
    ensures
        r@ == value_text(v as int),
{
    let a: u128 = if v < 0 {
        (-(v as i128)) as u128
    } else {
        v as u128
    };
    let unit: u128 = UNIT as u128;
    if a % unit == 0 {
        let mut s = String::new();
        if v < 0 {
            s.push('-');
        }
        push_digits(&mut s, a / unit);
        proof {
            let w = v as int;
            if w < 0 {
                assert((-w) % (UNIT as int) == 0);
                assert(w % (UNIT as int) == 0) by {
                    vstd::arithmetic::div_mod::lemma_fundamental_div_mod(-w, UNIT as int);
                    vstd::arithmetic::div_mod::lemma_fundamental_div_mod_converse(w, UNIT as int, -((-w) / (UNIT as int)), 0);
                }
                assert(w / (UNIT as int) == -((-w) / (UNIT as int))) by {
                    vstd::arithmetic::div_mod::lemma_fundamental_div_mod(-w, UNIT as int);
                    vstd::arithmetic::div_mod::lemma_fundamental_div_mod_converse(w, UNIT as int, -((-w) / (UNIT as int)), 0);
                }
                assert(s@ =~= value_text(w));
            } else {
                assert(s@ =~= value_text(w));
            }
        }
        s
    } else {
        proof {
            let w = v as int;
            if w < 0 {
                assert(w % (UNIT as int) != 0) by {
                    if w % (UNIT as int) == 0 {
                        vstd::arithmetic::div_mod::lemma_fundamental_div_mod(w, UNIT as int);
                        vstd::arithmetic::div_mod::lemma_fundamental_div_mod_converse(-w, UNIT as int, -(w / (UNIT as int)), 0);
                    }
                }
            }
        }
        let fixed = format_fixed(v as i128, 2);
        let once = trimmed(fixed.as_str(), '0');
        trimmed(once.as_str(), '.')
    }
}

/// A measured value and its unit: "4.5 mmol/l".
pub fn format_value_unit(v: i64, unit: &str) -> (r: String)
    ensures
        r@ == value_text(v as int) + seq![' '] + unit@,
{
    let mut s = format_value(v);
    s.push(' ');
    s.append(unit);
    s
}

} // verus!
