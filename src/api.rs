use vstd::prelude::*;
use vstd::utf8::encode_utf8;
use crate::text::trim_end;

verus! {

/// A byte that URL encoding leaves as it is: an ASCII letter or digit, or
/// one of `-`, `.`, `_`, `~`.
pub open spec fn is_unreserved(b: u8) -> bool {
    (48 <= b <= 57) || (65 <= b <= 90) || (97 <= b <= 122) || b == 45 || b == 46 || b == 95 || b == 126
}

/// Upper-case hexadecimal digit of `d < 16`.
pub open spec fn hex_upper(d: u8) -> char {
    if d < 10 {
        ((48 + d) as u8) as char
    } else {
        ((55 + d) as u8) as char
    }
}

/// The URL encoding of bytes: each unreserved byte as its character, every
/// other byte as '%' and two upper-case hexadecimal digits.
pub open spec fn percent_encoded(b: Seq<u8>) -> Seq<char>
    decreases b.len(),
{
    if b.len() == 0 {
        Seq::empty()
    } else {
        let c = b.last();
        percent_encoded(b.drop_last()) + if is_unreserved(c) {
            seq![c as char]
        } else {
            seq!['%', hex_upper(c / 16), hex_upper(c % 16)]
        }
    }
}

/// Relies on urlencoding's `encode`: it percent-encodes every UTF-8 byte of
/// `s` except ASCII letters, digits and `-`, `.`, `_`, `~`, with upper-case
/// hexadecimal digits.
#[verifier::external_body]
fn url_encode(s: &str) -> (r: String)
    ensures
        r@ == percent_encoded(encode_utf8(s@)),
{
    urlencoding::encode(s).into_owned()
}

/// The full URL of an API path: the base URL without trailing slashes, then
/// the path.
pub fn api_url(base_url: &str, path: &str) -> (r: String)
    ensures
        r@ == trim_end(base_url@, '/') + path@,
{
    let mut end = base_url.unicode_len();
    assert(base_url@.subrange(0, end as int) =~= base_url@);
    while end > 0 && base_url.get_char(end - 1) == '/'
        invariant
            end <= base_url@.len(),
            trim_end(base_url@.subrange(0, end as int), '/') == trim_end(base_url@, '/'),
        decreases end,
    {
        proof {
            assert(base_url@.subrange(0, end as int).drop_last() =~= base_url@.subrange(0, end - 1));
        }
        end = end - 1;
    }
    let mut r = String::from_str(base_url.substring_char(0, end));
    r.append(path);
    r
}

/// The authorization header value for a token.
pub fn auth_header(token: &str) -> (r: String)
    ensures
        r@ == "Bearer "@ + token@,
{
    let mut r = String::from_str("Bearer ");
    r.append(token);
    r
}

/// The API path of an analyte's history, with the name URL-encoded.
pub fn history_path(name: &str) -> (r: String)
    ensures
        r@ == "/api/bloodvalues/history/"@ + percent_encoded(encode_utf8(name@)),
{
    let encoded = url_encode(name);
    let mut r = String::from_str("/api/bloodvalues/history/");
    r.append(encoded.as_str());
    r
}

} // verus!
