//! Verified string helpers shared by the extractors: whitespace
//! trimming, decimal rendering and prefix/suffix tests over characters.

use vstd::prelude::*;

verus! {

/// Whether `char::is_whitespace` holds of a character.  Beyond ASCII the
/// set is Unicode's `White_Space` property, which is not written out
/// here; the ASCII portion is pinned by the wrapper below.
pub uninterp spec fn ws_char(c: char) -> bool;

/// Relies on std's `char::is_whitespace`.  Its documentation fixes the
/// ASCII whitespace characters: space, tab, line feed, vertical tab,
/// form feed and carriage return.
#[verifier::external_body]
fn is_ws(c: char) -> (r: bool)
    ensures
        r == ws_char(c),
        (c == ' ' || c == '\t' || c == '\n' || c == '\u{b}' || c == '\u{c}' || c == '\r') ==> r,
        ((c as u32) < 0x80 && !(c == ' ' || c == '\t' || c == '\n' || c == '\u{b}' || c == '\u{c}'
            || c == '\r')) ==> !r,
{
    c.is_whitespace()
}

/// The sequence without its leading whitespace.
pub open spec fn drop_leading_ws(s: Seq<char>) -> Seq<char>
    decreases s.len(),
{
    if s.len() > 0 && ws_char(s[0]) {
        drop_leading_ws(s.drop_first())
    } else {
        s
    }
}

/// The sequence without its trailing whitespace.
pub open spec fn drop_trailing_ws(s: Seq<char>) -> Seq<char>
    decreases s.len(),
{
    if s.len() > 0 && ws_char(s.last()) {
        drop_trailing_ws(s.drop_last())
    } else {
        s
    }
}

/// The sequence without leading and trailing whitespace: what
/// `str::trim` returns.
pub open spec fn trim_spec(s: Seq<char>) -> Seq<char> {
    drop_trailing_ws(drop_leading_ws(s))
}

proof fn lemma_drop_leading_skip(s: Seq<char>, k: int)
    requires
        0 <= k <= s.len(),
        forall|j: int| 0 <= j < k ==> ws_char(s[j]),
    ensures
        drop_leading_ws(s) == drop_leading_ws(s.skip(k)),
    decreases k,
{
    if k == 0 {
        assert(s.skip(0) =~= s);
    } else {
        assert(ws_char(s[0]));
        assert(s.drop_first() =~= s.skip(1));
        lemma_drop_leading_skip(s.skip(1), k - 1);
        assert(s.skip(1).skip(k - 1) =~= s.skip(k));
    }
}

proof fn lemma_drop_trailing_take(s: Seq<char>, k: int)
    requires
        0 <= k <= s.len(),
        forall|j: int| k <= j < s.len() ==> ws_char(s[j]),
    ensures
        drop_trailing_ws(s) == drop_trailing_ws(s.take(k)),
    decreases s.len() - k,
{
    if k == s.len() {
        assert(s.take(k) =~= s);
    } else {
        assert(ws_char(s.last()));
        assert(s.drop_last() =~= s.take(s.len() - 1));
        lemma_drop_trailing_take(s.take(s.len() - 1), k);
        assert(s.take(s.len() - 1).take(k) =~= s.take(k));
    }
}

/// Removes leading and trailing whitespace from a string.
pub fn trim_str(s: &str) -> (r: String)
    ensures
        r@ == trim_spec(s@),
{
    let n = s.unicode_len();
    let mut lo: usize = 0;
    while lo < n && is_ws(s.get_char(lo))
        invariant
            lo <= n,
            n == s@.len(),
            forall|j: int| 0 <= j < lo ==> ws_char(s@[j]),
        decreases n - lo,
    {
        lo = lo + 1;
    }
    proof {
        lemma_drop_leading_skip(s@, lo as int);
        if lo < n {
            assert(s@.skip(lo as int)[0] == s@[lo as int]);
            assert(drop_leading_ws(s@.skip(lo as int)) == s@.skip(lo as int));
        } else {
            assert(s@.skip(lo as int) =~= Seq::<char>::empty());
        }
        assert(drop_leading_ws(s@) == s@.skip(lo as int));
    }
    let mut hi: usize = n;
    while hi > lo && is_ws(s.get_char(hi - 1))
        invariant
            lo <= hi <= n,
            n == s@.len(),
            forall|j: int| hi <= j < n ==> ws_char(s@[j]),
        decreases hi,
    {
        hi = hi - 1;
    }
    let ghost t = s@.skip(lo as int);
    proof {
        assert(forall|j: int| 0 <= j < t.len() ==> t[j] == s@[lo + j]);
        lemma_drop_trailing_take(t, hi - lo);
        if hi > lo {
            assert(t.take(hi - lo).last() == s@[hi - 1]);
            assert(drop_trailing_ws(t.take(hi - lo)) == t.take(hi - lo));
        } else {
            assert(t.take(0) =~= Seq::<char>::empty());
        }
        assert(t.take(hi - lo) =~= s@.subrange(lo as int, hi as int));
        assert(trim_spec(s@) == s@.subrange(lo as int, hi as int));
    }
    let sub = s.substring_char(lo, hi);
    sub.to_owned()
}

/// The character for a decimal digit.
pub open spec fn dec_digit(d: int) -> char {
    if d == 0 {
        '0'
    } else if d == 1 {
        '1'
    } else if d == 2 {
        '2'
    } else if d == 3 {
        '3'
    } else if d == 4 {
        '4'
    } else if d == 5 {
        '5'
    } else if d == 6 {
        '6'
    } else if d == 7 {
        '7'
    } else if d == 8 {
        '8'
    } else {
        '9'
    }
}

/// The decimal rendering of a natural number, most significant digit
/// first.
pub open spec fn dec_str(n: nat) -> Seq<char>
    decreases n,
{
    if n < 10 {
        seq![dec_digit(n as int)]
    } else {
        dec_str(n / 10).push(dec_digit((n % 10) as int))
    }
}

fn digit_str(d: usize) -> (r: &'static str)
    requires
        d < 10,
    ensures
        r@ == seq![dec_digit(d as int)],
{
    proof {
        reveal_strlit("0");
        reveal_strlit("1");
        reveal_strlit("2");
        reveal_strlit("3");
        reveal_strlit("4");
        reveal_strlit("5");
        reveal_strlit("6");
        reveal_strlit("7");
        reveal_strlit("8");
        reveal_strlit("9");
    }
    let r: &'static str = if d == 0 {
        "0"
    } else if d == 1 {
        "1"
    } else if d == 2 {
        "2"
    } else if d == 3 {
        "3"
    } else if d == 4 {
        "4"
    } else if d == 5 {
        "5"
    } else if d == 6 {
        "6"
    } else if d == 7 {
        "7"
    } else if d == 8 {
        "8"
    } else {
        "9"
    };
    proof {
        assert(r@ =~= seq![dec_digit(d as int)]);
    }
    r
}

/// Renders a number in decimal.
pub fn usize_to_string(n: usize) -> (r: String)
    ensures
        r@ == dec_str(n as nat),
    decreases n,
{
    if n < 10 {
        digit_str(n).to_owned()
    } else {
        let mut s = usize_to_string(n / 10);
        s.append(digit_str(n % 10));
        proof {
            assert(dec_str((n / 10) as nat).push(dec_digit((n as nat % 10) as int)) =~= dec_str(
                (n / 10) as nat,
            ) + seq![dec_digit((n as nat % 10) as int)]);
        }
        s
    }
}

/// Whether two strings hold the same characters.
pub fn str_eq(a: &str, b: &str) -> (r: bool)
    ensures
        r == (a@ == b@),
{
    let an = a.unicode_len();
    let bn = b.unicode_len();
    if an != bn {
        proof {
            assert(a@ == b@ ==> a@.len() == b@.len());
        }
        return false;
    }
    let mut i: usize = 0;
    while i < an
        invariant
            i <= an,
            an == a@.len(),
            an == b@.len(),
            forall|j: int| 0 <= j < i ==> a@[j] == b@[j],
        decreases an - i,
    {
        if a.get_char(i) != b.get_char(i) {
            return false;
        }
        i = i + 1;
    }
    proof {
        assert(a@ =~= b@);
    }
    true
}

/// `p` is a prefix of `s`.
pub open spec fn has_prefix(s: Seq<char>, p: Seq<char>) -> bool {
    p.len() <= s.len() && s.subrange(0, p.len() as int) == p
}

/// `p` is a suffix of `s`.
pub open spec fn has_suffix(s: Seq<char>, p: Seq<char>) -> bool {
    p.len() <= s.len() && s.subrange(s.len() - p.len(), s.len() as int) == p
}

/// Whether the string starts with the given prefix.
pub fn str_has_prefix(s: &str, p: &str) -> (r: bool)
    ensures
        r == has_prefix(s@, p@),
{
    let sn = s.unicode_len();
    let pn = p.unicode_len();
    if pn > sn {
        assert(!has_prefix(s@, p@));
        return false;
    }
    let mut i: usize = 0;
    while i < pn
        invariant
            i <= pn <= sn,
            sn == s@.len(),
            pn == p@.len(),
            forall|j: int| 0 <= j < i ==> s@[j] == p@[j],
        decreases pn - i,
    {
        if s.get_char(i) != p.get_char(i) {
            proof {
                assert(has_prefix(s@, p@) ==> s@.subrange(0, pn as int)[i as int] == p@[i as int]);
            }
            return false;
        }
        i = i + 1;
    }
    proof {
        assert(s@.subrange(0, pn as int) =~= p@);
    }
    true
}

/// Whether the string ends with the given suffix.
pub fn str_has_suffix(s: &str, p: &str) -> (r: bool)
    ensures
        r == has_suffix(s@, p@),
{
    let sn = s.unicode_len();
    let pn = p.unicode_len();
    if pn > sn {
        assert(!has_suffix(s@, p@));
        return false;
    }
    let off = sn - pn;
    let mut i: usize = 0;
    while i < pn
        invariant
            i <= pn <= sn,
            sn == s@.len(),
            pn == p@.len(),
            off == sn - pn,
            forall|j: int| 0 <= j < i ==> s@[off + j] == p@[j],
        decreases pn - i,
    {
        if s.get_char(off + i) != p.get_char(i) {
            proof {
                assert(has_suffix(s@, p@) ==> s@.subrange(off as int, sn as int)[i as int]
                    == p@[i as int]);
            }
            return false;
        }
        i = i + 1;
    }
    proof {
        assert(s@.subrange(off as int, sn as int) =~= p@);
    }
    true
}

/// The literal `p` stands at position `pos` of `s`.
pub open spec fn lit_at(s: Seq<char>, pos: int, p: Seq<char>) -> bool {
    pos >= 0 && pos + p.len() <= s.len() && s.subrange(pos, pos + p.len() as int) == p
}

/// Whether the literal stands at the given position of the string.
pub fn str_lit_at(s: &str, pos: usize, p: &str) -> (r: bool)
    ensures
        r == lit_at(s@, pos as int, p@),
{
    let sn = s.unicode_len();
    let pn = p.unicode_len();
    if pos > sn || pn > sn - pos {
        assert(!lit_at(s@, pos as int, p@));
        return false;
    }
    let mut i: usize = 0;
    while i < pn
        invariant
            i <= pn,
            pos + pn <= sn,
            sn == s@.len(),
            pn == p@.len(),
            forall|j: int| 0 <= j < i ==> s@[pos + j] == p@[j],
        decreases pn - i,
    {
        if s.get_char(pos + i) != p.get_char(i) {
            proof {
                assert(lit_at(s@, pos as int, p@) ==> s@.subrange(
                    pos as int,
                    pos + p@.len(),
                )[i as int] == p@[i as int]);
            }
            return false;
        }
        i = i + 1;
    }
    proof {
        assert(s@.subrange(pos as int, pos + p@.len()) =~= p@);
    }
    true
}

/// The first position at or after `from` holding `c`.
pub open spec fn find_char(s: Seq<char>, from: int, c: char) -> Option<int>
    decreases s.len() - from,
{
    if !(0 <= from && from < s.len()) {
        None
    } else if s[from] == c {
        Some(from)
    } else {
        find_char(s, from + 1, c)
    }
}

/// A found position is in range and holds the character.
pub proof fn lemma_find_char_bounds(s: Seq<char>, from: int, c: char)
    ensures
        find_char(s, from, c) matches Some(i) ==> from <= i < s.len() && s[i] == c,
    decreases s.len() - from,
{
    if 0 <= from && from < s.len() && s[from] != c {
        lemma_find_char_bounds(s, from + 1, c);
    }
}

/// The first position at or after `from` holding `c`.
pub fn find_char_exec(s: &str, from: usize, c: char) -> (r: Option<usize>)
    requires
        from <= s@.len(),
    ensures
        match r {
            Some(i) => find_char(s@, from as int, c) == Some(i as int) && from <= i < s@.len(),
            None => find_char(s@, from as int, c) is None,
        },
{
    let n = s.unicode_len();
    let mut i: usize = from;
    while i < n
        invariant
            from <= i <= n,
            n == s@.len(),
            find_char(s@, from as int, c) == find_char(s@, i as int, c),
        decreases n - i,
    {
        if s.get_char(i) == c {
            return Some(i);
        }
        i = i + 1;
    }
    None
}

/// The text without NUL characters.
pub open spec fn strip_nul_spec(s: Seq<char>, pos: int) -> Seq<char>
    decreases s.len() - pos,
{
    if !(0 <= pos && pos < s.len()) {
        Seq::empty()
    } else if s[pos] == '\u{0}' {
        strip_nul_spec(s, pos + 1)
    } else {
        seq![s[pos]] + strip_nul_spec(s, pos + 1)
    }
}

/// What the stripping makes holds no NUL character.
pub proof fn lemma_strip_nul_free(s: Seq<char>, pos: int, i: int)
    requires
        0 <= i < strip_nul_spec(s, pos).len(),
    ensures
        strip_nul_spec(s, pos)[i] != '\u{0}',
    decreases s.len() - pos,
{
    if 0 <= pos && pos < s.len() {
        if s[pos] == '\u{0}' {
            lemma_strip_nul_free(s, pos + 1, i);
        } else if i > 0 {
            lemma_strip_nul_free(s, pos + 1, i - 1);
        }
    }
}

/// Removes NUL characters from a string.
pub fn strip_nul_str(s: &str) -> (r: String)
    ensures
        r@ == strip_nul_spec(s@, 0),
{
    let n = s.unicode_len();
    let mut pos: usize = 0;
    let mut out = String::new();
    while pos < n
        invariant
            pos <= n,
            n == s@.len(),
            strip_nul_spec(s@, 0) == out@ + strip_nul_spec(s@, pos as int),
        decreases n - pos,
    {
        let ghost sv = s@;
        if s.get_char(pos) != '\u{0}' {
            let c = s.substring_char(pos, pos + 1);
            out.append(c);
            proof {
                assert(c@ =~= seq![sv[pos as int]]);
            }
        }
        pos = pos + 1;
    }
    proof {
        assert(strip_nul_spec(s@, pos as int) =~= Seq::<char>::empty());
        assert(out@ + Seq::<char>::empty() =~= out@);
    }
    out
}

} // verus!


