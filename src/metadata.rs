use vstd::prelude::*;
use vstd::string::{StrSliceExecFns, StringExecFns};

use crate::text::char_vec;

verus! {

/// White space as the pattern class `\s` knows it: the Unicode
/// `White_Space` property.
pub open spec fn is_space(c: char) -> bool {
    ||| '\t' <= c && c <= '\r'
    ||| c == ' '
    ||| c == '\u{85}'
    ||| c == '\u{A0}'
    ||| c == '\u{1680}'
    ||| '\u{2000}' <= c && c <= '\u{200A}'
    ||| c == '\u{2028}'
    ||| c == '\u{2029}'
    ||| c == '\u{202F}'
    ||| c == '\u{205F}'
    ||| c == '\u{3000}'
}

/// First position at or after `i` that does not hold white space.
pub open spec fn skip_spaces(s: Seq<char>, i: int) -> int
    decreases s.len() - i,
{
    if 0 <= i < s.len() && is_space(s[i]) {
        skip_spaces(s, i + 1)
    } else {
        i
    }
}

/// First position at or after `i` that holds a double quote, or the end.
pub open spec fn next_quote(s: Seq<char>, i: int) -> int
    decreases s.len() - i,
{
    if 0 <= i < s.len() && s[i] != '"' {
        next_quote(s, i + 1)
    } else {
        i
    }
}

/// The word `name` starts at `p`.
pub open spec fn key_at(s: Seq<char>, p: int) -> bool {
    0 <= p && p + 4 <= s.len() && s.subrange(p, p + 4) == seq!['n', 'a', 'm', 'e']
}

/// Where an assignment `name = "<value>"` that starts at `p` holds its
/// value: the half-open range between the quotes. White space may stand
/// around `=`; the value is every character up to the next double quote.
pub open spec fn value_span_at(s: Seq<char>, p: int) -> Option<(int, int)> {
    if key_at(s, p) {
        let a = skip_spaces(s, p + 4);
        if a < s.len() && s[a] == '=' {
            let b = skip_spaces(s, a + 1);
            if b < s.len() && s[b] == '"' {
                let e = next_quote(s, b + 1);
                if e < s.len() {
                    Some((b + 1, e))
                } else {
                    None
                }
            } else {
                None
            }
        } else {
            None
        }
    } else {
        None
    }
}

/// The value of the first assignment that starts at or after `p`.
pub open spec fn first_value_from(s: Seq<char>, p: int) -> Option<Seq<char>>
    decreases s.len() - p,
{
    if 0 <= p < s.len() {
        match value_span_at(s, p) {
            Some(span) => Some(s.subrange(span.0, span.1)),
            None => first_value_from(s, p + 1),
        }
    } else {
        None
    }
}

/// The display name that a metadata file's text declares: the quoted value
/// of its first `name = "<value>"` assignment, taken verbatim.
pub open spec fn meta_name(s: Seq<char>) -> Option<Seq<char>> {
    first_value_from(s, 0)
}

/// What `char::to_uppercase` gives for a character (one or more characters).
pub uninterp spec fn upper_of(c: char) -> Seq<char>;

/// What `String::from_utf8_lossy` makes of a byte sequence.
pub uninterp spec fn lossy_of(b: Seq<u8>) -> Seq<char>;

/// A name with its first character in upper case and the rest untouched.
pub open spec fn capitalized(v: Seq<char>) -> Seq<char> {
    if v.len() == 0 {
        v
    } else {
        upper_of(v[0]) + v.drop_first()
    }
}

/// Relies on `char::to_uppercase`, collected into a `String`: the upper-case
/// mapping of one character, which may be several characters long.
#[verifier::external_body]
fn char_upper(c: char) -> (r: String)
    ensures
        r@ == upper_of(c),
{
    c.to_uppercase().collect::<String>()
}

/// Relies on `String::from_utf8_lossy`: the bytes decoded as UTF-8, with
/// invalid sequences replaced.
#[verifier::external_body]
pub(crate) fn decode_lossy(bytes: &[u8]) -> (r: String)
    ensures
        r@ == lossy_of(bytes@),
{
    String::from_utf8_lossy(bytes).into_owned()
}

fn is_space_char(c: char) -> (r: bool)
    ensures
        r == is_space(c),
{
    ('\t' <= c && c <= '\r') || c == ' ' || c == '\u{85}' || c == '\u{A0}' || c == '\u{1680}' || (
    '\u{2000}' <= c && c <= '\u{200A}') || c == '\u{2028}' || c == '\u{2029}' || c == '\u{202F}'
        || c == '\u{205F}' || c == '\u{3000}'
}

fn skip_spaces_from(s: &Vec<char>, i: usize) -> (r: usize)
    requires
        i <= s@.len(),
    ensures
        r == skip_spaces(s@, i as int),
        i <= r <= s@.len(),
{
    let mut j = i;
    while j < s.len() && is_space_char(s[j])
        invariant
            i <= j <= s@.len(),
            skip_spaces(s@, i as int) == skip_spaces(s@, j as int),
        decreases s@.len() - j,
    {
        j = j + 1;
    }
    j
}

fn next_quote_from(s: &Vec<char>, i: usize) -> (r: usize)
    requires
        i <= s@.len(),
    ensures
        r == next_quote(s@, i as int),
        i <= r <= s@.len(),
{
    let mut j = i;
    while j < s.len() && s[j] != '"'
        invariant
            i <= j <= s@.len(),
            next_quote(s@, i as int) == next_quote(s@, j as int),
        decreases s@.len() - j,
    {
        j = j + 1;
    }
    j
}

fn value_span_from(s: &Vec<char>, p: usize) -> (r: Option<(usize, usize)>)
    requires
        p < s@.len(),
    ensures
        match value_span_at(s@, p as int) {
            Some(span) => r == Some((span.0 as usize, span.1 as usize)) && 0 <= span.0 <= span.1
                <= s@.len(),
            None => r is None,
        },
{
    let n = s.len();
    if n - p < 4 || s[p] != 'n' || s[p + 1] != 'a' || s[p + 2] != 'm' || s[p + 3] != 'e' {
        proof {
            if p + 4 <= n {
                let w = s@.subrange(p as int, p + 4);
                if w == seq!['n', 'a', 'm', 'e'] {
                    assert(w[0] == s@[p as int] && w[1] == s@[p + 1] && w[2] == s@[p + 2] && w[3]
                        == s@[p + 3]);
                }
            }
        }
        return None;
    }
    assert(s@.subrange(p as int, p + 4) =~= seq!['n', 'a', 'm', 'e']);
    let a = skip_spaces_from(s, p + 4);
    if a >= n || s[a] != '=' {
        return None;
    }
    let b = skip_spaces_from(s, a + 1);
    if b >= n || s[b] != '"' {
        return None;
    }
    let e = next_quote_from(s, b + 1);
    if e >= n {
        return None;
    }
    Some((b + 1, e))
}

/// The quoted value of the first `name = "<value>"` assignment in a
/// metadata file's text, if there is one.
pub fn parse_meta_name(content: &str) -> (r: Option<String>)
    ensures
        match meta_name(content@) {
            Some(v) => r is Some && r->0@ == v,
            None => r is None,
        },
{
    let s = char_vec(content);
    let n = s.len();
    let mut p: usize = 0;
    while p < n
        invariant
            s@ == content@,
            n == s@.len(),
            p <= n,
            meta_name(s@) == first_value_from(s@, p as int),
        decreases n - p,
    {
        match value_span_from(&s, p) {
            Some(span) => {
                let v = content.substring_char(span.0, span.1);
                return Some(String::from_str(v));
            },
            None => {},
        }
        p = p + 1;
    }
    None
}

/// Puts the first character of a name in upper case, leaving the rest as
/// it is; an empty name stays empty.
pub fn normalize_name(raw: &str) -> (r: String)
    ensures
        r@ == capitalized(raw@),
{
    let n = raw.unicode_len();
    if n == 0 {
        return String::new();
    }
    let mut r = char_upper(raw.get_char(0));
    r.append(raw.substring_char(1, n));
    assert(raw@.subrange(1, n as int) =~= raw@.drop_first());
    r
}

} // verus!
