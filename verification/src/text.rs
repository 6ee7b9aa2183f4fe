//! Character and string helpers: ASCII upper-casing, extension matching,
//! whitespace trimming, album folder name parsing, and lexicographic order.

use vstd::prelude::*;

verus! {

/// One character mapped to upper case; only the ASCII letters change.
pub open spec fn upper_char_spec(c: char) -> char {
    if 97 <= c as u32 && c as u32 <= 122 {
        ((c as u32 - 32) as u8) as char
    } else {
        c
    }
}

/// A sequence of characters mapped to upper case.
pub open spec fn upper_seq(s: Seq<char>) -> Seq<char> {
    s.map_values(|c: char| upper_char_spec(c))
}

pub fn upper_char(c: char) -> (r: char)
    ensures
        r == upper_char_spec(c),
{
    let u = c as u32;
    if 97 <= u && u <= 122 {
        ((u - 32) as u8) as char
    } else {
        c
    }
}

/// Relies on String::push of std: appends exactly the one character.
#[verifier::external_body]
pub(crate) fn push_char(s: &mut String, c: char)
    ensures
        final(s)@ == old(s)@.push(c),
{
    s.push(c);
}

pub fn to_upper(s: &str) -> (r: String)
    ensures
        r@ == upper_seq(s@),
{
    let n = s.unicode_len();
    let mut out = String::new();
    let mut i: usize = 0;
    while i < n
        invariant
            i <= n,
            n == s@.len(),
            out@ == upper_seq(s@.take(i as int)),
        decreases n - i,
    {
        let c = s.get_char(i);
        push_char(&mut out, upper_char(c));
        i = i + 1;
        proof {
            assert(out@ =~= upper_seq(s@.take(i as int)));
        }
    }
    proof {
        assert(s@.take(n as int) =~= s@);
    }
    out
}

/// Whether a sequence of characters reads `MP3` once upper-cased.
pub open spec fn is_mp3_ext(e: Seq<char>) -> bool {
    upper_seq(e) == seq!['M', 'P', '3']
}

pub fn is_mp3_extension(ext: &str) -> (r: bool)
    ensures
        r == is_mp3_ext(ext@),
{
    let n = ext.unicode_len();
    if n != 3 {
        proof {
            assert(upper_seq(ext@).len() == ext@.len());
        }
        return false;
    }
    let r = upper_char(ext.get_char(0)) == 'M' && upper_char(ext.get_char(1)) == 'P'
        && upper_char(ext.get_char(2)) == '3';
    proof {
        if r {
            assert(upper_seq(ext@) =~= seq!['M', 'P', '3']);
        } else {
            assert(!(upper_seq(ext@) =~= seq!['M', 'P', '3']));
        }
    }
    r
}

/// The views of a sequence of strings.
pub open spec fn strings_view(v: Seq<String>) -> Seq<Seq<char>> {
    v.map_values(|s: String| s@)
}

/// Whether `ext` is one of the allowed extensions, compared upper-cased.
pub open spec fn ext_matches_spec(allowed: Seq<Seq<char>>, ext: Seq<char>) -> bool {
    exists|i: int| 0 <= i < allowed.len() && upper_seq(allowed[i]) == upper_seq(ext)
}

pub fn extension_matches(allowed: &Vec<String>, ext: &str) -> (r: bool)
    ensures
        r == ext_matches_spec(strings_view(allowed@), ext@),
{
    let up = to_upper(ext);
    let mut i: usize = 0;
    while i < allowed.len()
        invariant
            i <= allowed@.len(),
            up@ == upper_seq(ext@),
            forall|j: int|
                0 <= j < i ==> upper_seq(strings_view(allowed@)[j]) != upper_seq(ext@),
        decreases allowed@.len() - i,
    {
        let cand = to_upper(allowed[i].as_str());
        if cand == up {
            proof {
                assert(upper_seq(strings_view(allowed@)[i as int]) == upper_seq(ext@));
            }
            return true;
        }
        i = i + 1;
    }
    false
}

/// The whitespace characters that trimming removes.
pub open spec fn is_space_char(c: char) -> bool {
    c == ' ' || c == '\t' || c == '\n' || c == '\r'
}

/// Index of the first non-whitespace character, or the length.
pub open spec fn trim_start_idx(s: Seq<char>) -> int
    decreases s.len(),
{
    if s.len() == 0 {
        0
    } else if !is_space_char(s[0]) {
        0
    } else {
        1 + trim_start_idx(s.drop_first())
    }
}

/// Index just past the last non-whitespace character, or zero.
pub open spec fn trim_end_idx(s: Seq<char>) -> int
    decreases s.len(),
{
    if s.len() == 0 {
        0
    } else if !is_space_char(s.last()) {
        s.len() as int
    } else {
        trim_end_idx(s.drop_last())
    }
}

/// The sequence with leading and trailing whitespace removed.
pub open spec fn trim_spec(s: Seq<char>) -> Seq<char> {
    let a = trim_start_idx(s);
    let b = trim_end_idx(s);
    if a <= b {
        s.subrange(a, b)
    } else {
        Seq::empty()
    }
}

proof fn lemma_trim_start(s: Seq<char>)
    ensures
        0 <= trim_start_idx(s) <= s.len(),
        forall|j: int| 0 <= j < trim_start_idx(s) ==> is_space_char(s[j]),
        trim_start_idx(s) < s.len() ==> !is_space_char(s[trim_start_idx(s)]),
    decreases s.len(),
{
    if s.len() > 0 && is_space_char(s[0]) {
        lemma_trim_start(s.drop_first());
        assert forall|j: int| 0 <= j < trim_start_idx(s) implies is_space_char(s[j]) by {
            if j > 0 {
                assert(is_space_char(s.drop_first()[j - 1]));
            }
        }
    }
}

proof fn lemma_trim_end(s: Seq<char>)
    ensures
        0 <= trim_end_idx(s) <= s.len(),
        forall|j: int| trim_end_idx(s) <= j < s.len() ==> is_space_char(s[j]),
        trim_end_idx(s) > 0 ==> !is_space_char(s[trim_end_idx(s) - 1]),
    decreases s.len(),
{
    if s.len() > 0 && is_space_char(s.last()) {
        lemma_trim_end(s.drop_last());
        assert forall|j: int| trim_end_idx(s) <= j < s.len() implies is_space_char(s[j]) by {
            if j < s.len() - 1 {
                assert(is_space_char(s.drop_last()[j]));
            }
        }
    }
}

fn space_at(s: &str, i: usize) -> (r: bool)
    requires
        i < s@.len(),
    ensures
        r == is_space_char(s@[i as int]),
{
    let c = s.get_char(i);
    c == ' ' || c == '\t' || c == '\n' || c == '\r'
}

pub fn trim(s: &str) -> (r: String)
    ensures
        r@ == trim_spec(s@),
{
    proof {
        lemma_trim_start(s@);
        lemma_trim_end(s@);
    }
    let n = s.unicode_len();
    let mut a: usize = 0;
    while a < n && space_at(s, a)
        invariant
            a <= n,
            n == s@.len(),
            forall|j: int| 0 <= j < a ==> is_space_char(s@[j]),
        decreases n - a,
    {
        a = a + 1;
    }
    proof {
        assert(a as int == trim_start_idx(s@));
    }
    let mut b: usize = n;
    while b > a && space_at(s, b - 1)
        invariant
            a <= b <= n,
            n == s@.len(),
            a as int == trim_start_idx(s@),
            forall|j: int| b <= j < n ==> is_space_char(s@[j]),
        decreases b,
    {
        b = b - 1;
    }
    proof {
        if b == a {
            if trim_end_idx(s@) > b {
                assert(is_space_char(s@[trim_end_idx(s@) - 1]));
            }
            if trim_end_idx(s@) >= a {
                assert(trim_spec(s@) =~= s@.subrange(a as int, trim_end_idx(s@)));
                assert(trim_spec(s@) =~= s@.subrange(a as int, b as int));
            } else {
                assert(trim_spec(s@) =~= Seq::<char>::empty());
                assert(trim_spec(s@) =~= s@.subrange(a as int, b as int));
            }
        } else {
            assert(!is_space_char(s@[b - 1]));
            assert(b as int == trim_end_idx(s@)) by {
                if trim_end_idx(s@) < b {
                    assert(is_space_char(s@[b - 1]));
                }
                if trim_end_idx(s@) > b {
                    assert(is_space_char(s@[trim_end_idx(s@) - 1]));
                }
            }
        }
    }
    let piece = s.substring_char(a, b);
    String::from_str(piece)
}

/// Index of the first `-` character, or the length when there is none.
pub open spec fn dash_idx(s: Seq<char>) -> int
    decreases s.len(),
{
    if s.len() == 0 {
        0
    } else if s[0] == '-' {
        0
    } else {
        1 + dash_idx(s.drop_first())
    }
}

proof fn lemma_dash_idx(s: Seq<char>)
    ensures
        0 <= dash_idx(s) <= s.len(),
        forall|j: int| 0 <= j < dash_idx(s) ==> s[j] != '-',
        dash_idx(s) < s.len() ==> s[dash_idx(s)] == '-',
    decreases s.len(),
{
    if s.len() > 0 && s[0] != '-' {
        lemma_dash_idx(s.drop_first());
        assert forall|j: int| 0 <= j < dash_idx(s) implies s[j] != '-' by {
            if j > 0 {
                assert(s.drop_first()[j - 1] != '-');
            }
        }
    }
}

/// An album folder name split on its first `-` into a trimmed year and a
/// trimmed album name; `None` when the name holds no `-`.
pub open spec fn parse_album_spec(s: Seq<char>) -> Option<(Seq<char>, Seq<char>)> {
    let d = dash_idx(s);
    if d == s.len() {
        None
    } else {
        Some(
            (
                trim_spec(s.subrange(0, d)),
                trim_spec(s.subrange(d + 1, s.len() as int)),
            ),
        )
    }
}

pub fn parse_album_folder_name(name: &str) -> (r: Option<(String, String)>)
    ensures
        match r {
            Some(p) => parse_album_spec(name@) == Some((p.0@, p.1@)),
            None => parse_album_spec(name@) is None,
        },
{
    proof {
        lemma_dash_idx(name@);
    }
    let n = name.unicode_len();
    let mut d: usize = 0;
    while d < n && name.get_char(d) != '-'
        invariant
            d <= n,
            n == name@.len(),
            forall|j: int| 0 <= j < d ==> name@[j] != '-',
        decreases n - d,
    {
        d = d + 1;
    }
    proof {
        assert(d as int == dash_idx(name@));
    }
    if d == n {
        return None;
    }
    let year_raw = name.substring_char(0, d);
    let rest_raw = name.substring_char(d + 1, n);
    let year = trim(year_raw);
    let rest = trim(rest_raw);
    Some((year, rest))
}

/// Replaces each NUL character by `/`, as genre tags join multiple values.
pub open spec fn slash_char(c: char) -> char {
    if c == '\u{0}' {
        '/'
    } else {
        c
    }
}

pub open spec fn nul_slash_seq(s: Seq<char>) -> Seq<char> {
    s.map_values(|c: char| slash_char(c))
}

pub fn nul_to_slash(s: &str) -> (r: String)
    ensures
        r@ == nul_slash_seq(s@),
{
    let n = s.unicode_len();
    let mut out = String::new();
    let mut i: usize = 0;
    while i < n
        invariant
            i <= n,
            n == s@.len(),
            out@ == nul_slash_seq(s@.take(i as int)),
        decreases n - i,
    {
        let c = s.get_char(i);
        if c == '\u{0}' {
            push_char(&mut out, '/');
        } else {
            push_char(&mut out, c);
        }
        i = i + 1;
        proof {
            assert(out@ =~= nul_slash_seq(s@.take(i as int)));
        }
    }
    proof {
        assert(s@.take(n as int) =~= s@);
    }
    out
}

/// Lexicographic order on character sequences by code point, the order in
/// which the spreadsheet's band column is sorted.
pub open spec fn lex_le(a: Seq<char>, b: Seq<char>) -> bool
    decreases a.len(),
{
    if a.len() == 0 {
        true
    } else if b.len() == 0 {
        false
    } else if a[0] == b[0] {
        lex_le(a.drop_first(), b.drop_first())
    } else {
        (a[0] as u32) < (b[0] as u32)
    }
}

pub fn str_lex_le(a: &str, b: &str) -> (r: bool)
    ensures
        r == lex_le(a@, b@),
{
    let n = a.unicode_len();
    let m = b.unicode_len();
    let mut i: usize = 0;
    proof {
        assert(a@.skip(0) =~= a@);
        assert(b@.skip(0) =~= b@);
    }
    loop
        invariant
            i <= n,
            i <= m,
            n == a@.len(),
            m == b@.len(),
            lex_le(a@, b@) == lex_le(a@.skip(i as int), b@.skip(i as int)),
        decreases n - i,
    {
        if i >= n {
            return true;
        }
        if i >= m {
            return false;
        }
        let ca = a.get_char(i);
        let cb = b.get_char(i);
        proof {
            assert(a@.skip(i as int)[0] == a@[i as int]);
            assert(b@.skip(i as int)[0] == b@[i as int]);
            assert(a@.skip(i as int).drop_first() =~= a@.skip(i as int + 1));
            assert(b@.skip(i as int).drop_first() =~= b@.skip(i as int + 1));
        }
        if ca != cb {
            return (ca as u32) < (cb as u32);
        }
        i = i + 1;
    }
}

} // verus!
