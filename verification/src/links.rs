//! Reading invite links: the server address out of the query string
//! (`?server=wss%3A%2F%2Fhost`), percent-decoded, and a room id out of the
//! path or the fragment (`/ABCD`, `#ABCD`).
use vstd::prelude::*;
use vstd::string::{StrSliceExecFns, StringSliceAdditionalSpecFns};
use vstd::utf8::{decode_utf8, valid_utf8};

use crate::lobby::{lobby_id_in, lobby_id_of};

verus! {

/// The value of a hexadecimal digit character, given as its byte.
pub open spec fn hex_digit(b: u8) -> Option<u32> {
    if 48 <= b <= 57 {
        Some((b - 48) as u32)
    } else if 97 <= b <= 102 {
        Some((b - 87) as u32)
    } else if 65 <= b <= 70 {
        Some((b - 55) as u32)
    } else {
        None
    }
}

/// `b` with each `%XX` escape (two hexadecimal digits) replaced by the byte
/// it codes and each `+` by a space; any other byte, a `%` without two
/// digits after it included, is kept.
pub open spec fn percent_decoded(b: Seq<u8>) -> Seq<u8>
    decreases b.len(),
{
    if b.len() == 0 {
        Seq::empty()
    } else if b[0] == 37 && 2 < b.len() && hex_digit(b[1]) is Some && hex_digit(b[2]) is Some {
        seq![(hex_digit(b[1]).unwrap() * 16 + hex_digit(b[2]).unwrap()) as u8] + percent_decoded(
            b.subrange(3, b.len() as int),
        )
    } else if b[0] == 43 {
        seq![32u8] + percent_decoded(b.subrange(1, b.len() as int))
    } else {
        seq![b[0]] + percent_decoded(b.subrange(1, b.len() as int))
    }
}

/// What `String::from_utf8_lossy` makes of `bytes`.
pub uninterp spec fn utf8_lossy(bytes: Seq<u8>) -> Seq<char>;

/// `String::from_utf8_lossy` (then `into_owned`): the text of `bytes`, each
/// invalid sequence replaced by U+FFFD. Of valid UTF-8 it is the decoded
/// text.
#[verifier::external_body]
fn lossy_text(bytes: &[u8]) -> (r: String)
    ensures
        r@ == utf8_lossy(bytes@),
        valid_utf8(bytes@) ==> r@ == decode_utf8(bytes@),
{
    String::from_utf8_lossy(bytes).into_owned()
}

/// `c` has the Unicode White_Space property: tab, line feed, vertical
/// tab, form feed, carriage return, space, next line, no-break space, ogham
/// space mark, the spaces from en quad to hair space, line and paragraph
/// separator, narrow no-break space, medium mathematical space and
/// ideographic space.
pub open spec fn white_space(c: char) -> bool {
    let n = c as int;
    ||| 0x09 <= n <= 0x0D
    ||| n == 0x20
    ||| n == 0x85
    ||| n == 0xA0
    ||| n == 0x1680
    ||| 0x2000 <= n <= 0x200A
    ||| n == 0x2028
    ||| n == 0x2029
    ||| n == 0x202F
    ||| n == 0x205F
    ||| n == 0x3000
}

/// Whether `c` has the Unicode White_Space property (see [`white_space`]),
/// as `char::is_whitespace` tells.
fn is_white(c: char) -> (r: bool)
    ensures
        r == white_space(c),
{
    let n = c as u32;
    (0x09 <= n && n <= 0x0D) || n == 0x20 || n == 0x85 || n == 0xA0 || n == 0x1680 || (0x2000 <= n
        && n <= 0x200A) || n == 0x2028 || n == 0x2029 || n == 0x202F || n == 0x205F || n == 0x3000
}

/// The first index from `i` on that is not white space (`s.len()` if none).
pub open spec fn skip_white(s: Seq<char>, i: int) -> int
    decreases s.len() - i,
{
    if 0 <= i < s.len() && white_space(s[i]) {
        skip_white(s, i + 1)
    } else {
        i
    }
}

/// The end of `s` before `j` once trailing white space down to `lo` is cut.
pub open spec fn cut_white(s: Seq<char>, j: int, lo: int) -> int
    decreases j,
{
    if j > lo && 0 < j <= s.len() && white_space(s[j - 1]) {
        cut_white(s, j - 1, lo)
    } else {
        j
    }
}

/// `s` without leading and trailing white space (`str::trim`).
pub open spec fn trimmed(s: Seq<char>) -> Seq<char> {
    let a = skip_white(s, 0);
    s.subrange(a, cut_white(s, s.len() as int, a))
}

proof fn lemma_skip_white(s: Seq<char>, i: int)
    requires
        0 <= i <= s.len(),
    ensures
        i <= skip_white(s, i) <= s.len(),
    decreases s.len() - i,
{
    if i < s.len() && white_space(s[i]) {
        lemma_skip_white(s, i + 1);
    }
}

proof fn lemma_cut_white(s: Seq<char>, j: int, lo: int)
    requires
        0 <= lo <= j <= s.len(),
    ensures
        lo <= cut_white(s, j, lo) <= j,
    decreases j,
{
    if j > lo && white_space(s[j - 1]) {
        lemma_cut_white(s, j - 1, lo);
    }
}

/// `s` without leading and trailing white space.
pub(crate) fn trim_text(s: &String) -> (r: String)
    ensures
        r@ == trimmed(s@),
{
    let t = s.as_str();
    let n = t.unicode_len();
    let mut a: usize = 0;
    while a < n && is_white(t.get_char(a))
        invariant
            a <= n,
            n == s@.len(),
            t@ == s@,
            skip_white(s@, 0) == skip_white(s@, a as int),
        decreases n - a,
    {
        a = a + 1;
    }
    let mut b: usize = n;
    proof {
        lemma_skip_white(s@, 0);
    }
    while b > a && is_white(t.get_char(b - 1))
        invariant
            a <= b <= n,
            n == s@.len(),
            t@ == s@,
            cut_white(s@, n as int, a as int) == cut_white(s@, b as int, a as int),
        decreases b,
    {
        b = b - 1;
    }
    t.substring_char(a, b).to_owned()
}

/// The bytes from `from` to `to` of `bytes`, percent-decoded (see
/// [`percent_decoded`]).
fn decode_range(bytes: &[u8], from: usize, to: usize) -> (r: Vec<u8>)
    requires
        from <= to <= bytes@.len(),
    ensures
        r@ == percent_decoded(bytes@.subrange(from as int, to as int)),
{
    let mut out: Vec<u8> = Vec::new();
    let mut i: usize = from;
    while i < to
        invariant
            from <= i <= to <= bytes@.len(),
            out@ + percent_decoded(bytes@.subrange(i as int, to as int)) == percent_decoded(
                bytes@.subrange(from as int, to as int),
            ),
        decreases to - i,
    {
        let ghost rest = bytes@.subrange(i as int, to as int);
        let b = bytes[i];
        if b == 37 && to - i > 2 {
            match (hex_value(bytes[i + 1]), hex_value(bytes[i + 2])) {
                (Some(hi), Some(lo)) => {
                    let v = (hi * 16 + lo) as u8;
                    out.push(v);
                    proof {
                        assert(rest.subrange(3, rest.len() as int) =~= bytes@.subrange(
                            i + 3,
                            to as int,
                        ));
                        assert(out@ + percent_decoded(bytes@.subrange(i + 3, to as int)) =~= out@.drop_last() + (
                        seq![v] + percent_decoded(bytes@.subrange(i + 3, to as int))));
                    }
                    i = i + 3;
                    continue;
                },
                _ => {},
            }
        }
        let v: u8 = if b == 43 {
            32
        } else {
            b
        };
        out.push(v);
        proof {
            assert(rest.subrange(1, rest.len() as int) =~= bytes@.subrange(i + 1, to as int));
            assert(out@ + percent_decoded(bytes@.subrange(i + 1, to as int)) =~= out@.drop_last() + (
            seq![v] + percent_decoded(bytes@.subrange(i + 1, to as int))));
        }
        i = i + 1;
    }
    proof {
        assert(out@ =~= out@ + percent_decoded(bytes@.subrange(to as int, to as int)));
    }
    out
}

/// The value of a hexadecimal digit character, given as its byte.
fn hex_value(b: u8) -> (r: Option<u32>)
    ensures
        r == hex_digit(b),
{
    if 48 <= b && b <= 57 {
        Some((b - 48) as u32)
    } else if 97 <= b && b <= 102 {
        Some((b - 87) as u32)
    } else if 65 <= b && b <= 70 {
        Some((b - 55) as u32)
    } else {
        None
    }
}

/// A minimal percent-decoder for query values: `%XX` escapes and `+` for a
/// space, the bytes then read as UTF-8 (see [`percent_decoded`]).
pub fn percent_decode(input: &str) -> (r: String)
    ensures
        r@ == utf8_lossy(percent_decoded(input.spec_bytes())),
        valid_utf8(percent_decoded(input.spec_bytes())) ==> r@ == decode_utf8(
            percent_decoded(input.spec_bytes()),
        ),
{
    let bytes = input.as_bytes();
    let out = decode_range(bytes, 0, bytes.len());
    proof {
        assert(bytes@.subrange(0, bytes@.len() as int) =~= bytes@);
    }
    lossy_text(out.as_slice())
}

/// The first index from `i` on whose byte is not `?`.
pub open spec fn skip_question_marks(b: Seq<u8>, i: int) -> int
    decreases b.len() - i,
{
    if 0 <= i < b.len() && b[i] == 63 {
        skip_question_marks(b, i + 1)
    } else {
        i
    }
}

/// The first index from `i` on whose byte is `c` (`b.len()` if none).
pub open spec fn find_byte(b: Seq<u8>, c: u8, i: int, end: int) -> int
    decreases end - i,
{
    if i < end && b[i] != c {
        find_byte(b, c, i + 1, end)
    } else {
        i
    }
}

/// The bytes of `server`.
pub open spec fn server_key() -> Seq<u8> {
    seq![115u8, 101u8, 114u8, 118u8, 101u8, 114u8]
}

/// The value of the `key=value` pair from `start` to `end`: after the first
/// `=`, empty when there is none.
pub open spec fn pair_value(b: Seq<u8>, start: int, end: int) -> Seq<u8> {
    let e = find_byte(b, 61, start, end);
    if e < end {
        b.subrange(e + 1, end)
    } else {
        Seq::empty()
    }
}

/// The server address of the `&`-separated pairs of `b` from `start` on:
/// the value of the first `server` pair that is not blank once decoded and
/// trimmed.
pub open spec fn server_from(b: Seq<u8>, start: int) -> Option<Seq<char>>
    decreases b.len() - start,
{
    if start < 0 || start > b.len() {
        None
    } else {
        let end = find_byte(b, 38, start, b.len() as int);
        let e = find_byte(b, 61, start, end);
        let value = trimmed(utf8_lossy(percent_decoded(pair_value(b, start, end))));
        if b.subrange(start, e) == server_key() && value.len() > 0 {
            Some(value)
        } else if end >= b.len() {
            None
        } else {
            proof {
                lemma_find_byte(b, 38, start, b.len() as int);
            }
            server_from(b, end + 1)
        }
    }
}

pub proof fn lemma_find_byte(b: Seq<u8>, c: u8, i: int, end: int)
    requires
        i <= end,
    ensures
        i <= find_byte(b, c, i, end) <= end,
        find_byte(b, c, i, end) < end ==> b[find_byte(b, c, i, end)] == c,
    decreases end - i,
{
    if i < end && b[i] != c {
        lemma_find_byte(b, c, i + 1, end);
    }
}

/// The index of the first `c` from `i` to `end` (`end` if none).
fn find_in(b: &[u8], c: u8, i: usize, end: usize) -> (r: usize)
    requires
        i <= end <= b@.len(),
    ensures
        r == find_byte(b@, c, i as int, end as int),
{
    let mut j = i;
    while j < end && b[j] != c
        invariant
            i <= j <= end <= b@.len(),
            find_byte(b@, c, i as int, end as int) == find_byte(b@, c, j as int, end as int),
        decreases end - j,
    {
        j = j + 1;
    }
    j
}

/// Whether the bytes from `start` to `e` spell `server`.
fn is_server_key(b: &[u8], start: usize, e: usize) -> (r: bool)
    requires
        start <= e <= b@.len(),
    ensures
        r == (b@.subrange(start as int, e as int) == server_key()),
{
    if e - start != 6 {
        proof {
            assert(server_key().len() == 6);
        }
        return false;
    }
    let r = b[start] == 115 && b[start + 1] == 101 && b[start + 2] == 114 && b[start + 3] == 118
        && b[start + 4] == 101 && b[start + 5] == 114;
    proof {
        if r {
            assert(b@.subrange(start as int, e as int) =~= server_key());
        } else {
            let k = b@.subrange(start as int, e as int);
            assert(!(k[0] == 115 && k[1] == 101 && k[2] == 114 && k[3] == 118 && k[4] == 101 && k[5]
                == 114));
        }
    }
    r
}

/// The server address of an invite link's query string (`?server=...`,
/// possibly among other pairs): the first `server` value that is not blank
/// once percent-decoded and trimmed (see [`server_from`]); `None` when there
/// is none.
pub fn server_url_from_query(search: &str) -> (r: Option<String>)
    ensures
        match server_from(search.spec_bytes(), skip_question_marks(search.spec_bytes(), 0)) {
            Some(v) => r matches Some(s) && s@ == v,
            None => r is None,
        },
{
    let b = search.as_bytes();
    let n = b.len();
    let mut start: usize = 0;
    while start < n && b[start] == 63
        invariant
            start <= n == b@.len(),
            skip_question_marks(b@, 0) == skip_question_marks(b@, start as int),
        decreases n - start,
    {
        start = start + 1;
    }
    loop
        invariant
            start <= n == b@.len(),
            b@ == search.spec_bytes(),
            server_from(b@, skip_question_marks(b@, 0)) == server_from(b@, start as int),
        decreases n - start,
    {
        let end = find_in(b, 38, start, n);
        proof {
            lemma_find_byte(b@, 38, start as int, n as int);
        }
        let e = find_in(b, 61, start, end);
        proof {
            lemma_find_byte(b@, 61, start as int, end as int);
        }
        let decoded = if e < end {
            decode_range(b, e + 1, end)
        } else {
            Vec::new()
        };
        proof {
            assert(decoded@ == percent_decoded(pair_value(b@, start as int, end as int))) by {
                if e >= end {
                    assert(pair_value(b@, start as int, end as int) =~= Seq::<u8>::empty());
                }
            }
        }
        let text = lossy_text(decoded.as_slice());
        let value = trim_text(&text);
        if is_server_key(b, start, e) && value.as_str().unicode_len() > 0 {
            return Some(value);
        }
        if end >= n {
            return None;
        }
        start = end + 1;
    }
}

/// The first index from `i` on whose byte is not `c` (`b.len()` if none).
pub open spec fn skip_byte(b: Seq<u8>, c: u8, i: int) -> int
    decreases b.len() - i,
{
    if 0 <= i < b.len() && b[i] == c {
        skip_byte(b, c, i + 1)
    } else {
        i
    }
}

/// The end `j` with the bytes `c` that end `b[lo..j]` cut off.
pub open spec fn cut_byte(b: Seq<u8>, c: u8, j: int, lo: int) -> int
    decreases j - lo,
{
    if lo < j && b[j - 1] == c {
        cut_byte(b, c, j - 1, lo)
    } else {
        j
    }
}

/// The text that a browser location names as a room: the fragment without
/// its leading `#`s where that is not empty, else the path without the `/`s
/// at either end.
pub open spec fn location_candidate(path: Seq<u8>, hash: Seq<u8>) -> Seq<u8> {
    let h = skip_byte(hash, 35, 0);
    if h < hash.len() {
        hash.subrange(h, hash.len() as int)
    } else {
        let s = skip_byte(path, 47, 0);
        path.subrange(s, cut_byte(path, 47, path.len() as int, s))
    }
}

/// The room id that a browser location (`/ABCD` or `#ABCD`) names, the
/// fragment winning over the path (see [`location_candidate`] and
/// [`lobby_id_of`]).
pub fn room_id_from_location(path: &str, hash: &str) -> (r: Option<String>)
    ensures
        match lobby_id_of(location_candidate(path.spec_bytes(), hash.spec_bytes())) {
            Some(v) => r matches Some(s) && s@ == v,
            None => r is None,
        },
{
    let h = hash.as_bytes();
    let hn = h.len();
    let mut hs: usize = 0;
    while hs < hn && h[hs] == 35
        invariant
            hs <= hn == h@.len(),
            skip_byte(h@, 35, 0) == skip_byte(h@, 35, hs as int),
        decreases hn - hs,
    {
        hs = hs + 1;
    }
    if hs < hn {
        return lobby_id_in(h, hs, hn);
    }
    let p = path.as_bytes();
    let pn = p.len();
    let mut s: usize = 0;
    while s < pn && p[s] == 47
        invariant
            s <= pn == p@.len(),
            skip_byte(p@, 47, 0) == skip_byte(p@, 47, s as int),
        decreases pn - s,
    {
        s = s + 1;
    }
    let mut e: usize = pn;
    while e > s && p[e - 1] == 47
        invariant
            s <= e <= pn == p@.len(),
            skip_byte(p@, 47, 0) == s,
            cut_byte(p@, 47, pn as int, s as int) == cut_byte(p@, 47, e as int, s as int),
        decreases e,
    {
        e = e - 1;
    }
    lobby_id_in(p, s, e)
}

} // verus!
