//! Character-level helpers shared by the protocol parser and the CLI filter:
//! Unicode whitespace, trimming, ASCII case mapping, literal comparison and
//! decimal / hexadecimal digits.
use vstd::prelude::*;
use vstd::utf8::*;

verus! {

// ---------------------------------------------------------------------------
// Trusted calls into std
// ---------------------------------------------------------------------------

/// Whether `c` has the Unicode `White_Space` property (the set of code points
/// listed in `PropList.txt`).
pub open spec fn is_ws(c: char) -> bool {
    let u = c as u32;
    ||| 0x09 <= u <= 0x0D
    ||| u == 0x20
    ||| u == 0x85
    ||| u == 0xA0
    ||| u == 0x1680
    ||| 0x2000 <= u <= 0x200A
    ||| u == 0x2028
    ||| u == 0x2029
    ||| u == 0x202F
    ||| u == 0x205F
    ||| u == 0x3000
}

/// Calls `char::is_whitespace`, which std documents as "has the Unicode
/// `White_Space` property"; the contract lists those code points.
#[verifier::external_body]
pub(crate) fn char_is_whitespace(c: char) -> (r: bool)
    ensures
        r == is_ws(c),
{
    c.is_whitespace()
}

/// Calls `String::push`: the character is appended at the end.
#[verifier::external_body]
pub(crate) fn string_push(s: &mut String, c: char)
    ensures
        final(s)@ == old(s)@.push(c),
{
    s.push(c)
}

/// What `String::from_utf8_lossy` makes of a byte sequence.
pub uninterp spec fn utf8_lossy_chars(bytes: Seq<u8>) -> Seq<char>;

/// Calls `String::from_utf8_lossy` (and takes ownership of the result).
/// The result is named `utf8_lossy_chars` of the bytes; std documents that
/// valid UTF-8 is decoded unchanged, which the second clause states. How
/// invalid sequences are replaced by U+FFFD is left unsaid.
#[verifier::external_body]
pub(crate) fn utf8_lossy(bytes: &[u8]) -> (r: String)
    ensures
        r@ == utf8_lossy_chars(bytes@),
        valid_utf8(bytes@) ==> r@ == decode_utf8(bytes@),
{
    String::from_utf8_lossy(bytes).into_owned()
}

// ---------------------------------------------------------------------------
// Character classes and searching
// ---------------------------------------------------------------------------

/// A class of characters searched for by `first_in`.
#[derive(Clone, Copy)]
pub enum CharClass {
    Space,
    NonSpace,
    Exactly(char),
}

pub open spec fn in_class(c: char, k: CharClass) -> bool {
    match k {
        CharClass::Space => is_ws(c),
        CharClass::NonSpace => !is_ws(c),
        CharClass::Exactly(x) => c == x,
    }
}

/// Index of the first character of `s` in class `k`, or `s.len()` if none.
pub open spec fn first_in(s: Seq<char>, k: CharClass) -> int
    decreases s.len(),
{
    if s.len() == 0 {
        0
    } else if in_class(s[0], k) {
        0
    } else {
        1 + first_in(s.drop_first(), k)
    }
}

/// One past the last non-whitespace character of `s` (0 if there is none).
pub open spec fn content_end(s: Seq<char>) -> int
    decreases s.len(),
{
    if s.len() == 0 {
        0
    } else if !is_ws(s.last()) {
        s.len() as int
    } else {
        content_end(s.drop_last())
    }
}

pub open spec fn trim_start(s: Seq<char>) -> Seq<char> {
    s.skip(first_in(s, CharClass::NonSpace))
}

pub open spec fn trim_end(s: Seq<char>) -> Seq<char> {
    s.take(content_end(s))
}

/// `str::trim`: leading and trailing Unicode whitespace removed.
pub open spec fn trim(s: Seq<char>) -> Seq<char> {
    trim_end(trim_start(s))
}

pub proof fn lemma_first_in(s: Seq<char>, k: CharClass)
    ensures
        0 <= first_in(s, k) <= s.len(),
        forall|j: int| 0 <= j < first_in(s, k) ==> !in_class(#[trigger] s[j], k),
        first_in(s, k) < s.len() ==> in_class(s[first_in(s, k)], k),
    decreases s.len(),
{
    if s.len() > 0 && !in_class(s[0], k) {
        let t = s.drop_first();
        lemma_first_in(t, k);
        assert forall|j: int| 0 <= j < first_in(s, k) implies !in_class(#[trigger] s[j], k) by {
            if j > 0 {
                assert(s[j] == t[j - 1]);
            }
        }
    }
}

/// Any index with the defining properties is `first_in`.
pub proof fn lemma_first_in_unique(s: Seq<char>, k: CharClass, i: int)
    requires
        0 <= i <= s.len(),
        forall|j: int| 0 <= j < i ==> !in_class(#[trigger] s[j], k),
        i < s.len() ==> in_class(s[i], k),
    ensures
        first_in(s, k) == i,
{
    lemma_first_in(s, k);
    let f = first_in(s, k);
    if f < i {
        assert(!in_class(s[f], k));
    }
    if i < f {
        assert(!in_class(s[i], k));
    }
}

pub proof fn lemma_content_end(s: Seq<char>)
    ensures
        0 <= content_end(s) <= s.len(),
        forall|j: int| content_end(s) <= j < s.len() ==> is_ws(#[trigger] s[j]),
        content_end(s) > 0 ==> !is_ws(s[content_end(s) - 1]),
    decreases s.len(),
{
    if s.len() > 0 && is_ws(s.last()) {
        let t = s.drop_last();
        lemma_content_end(t);
        assert forall|j: int| content_end(s) <= j < s.len() implies is_ws(#[trigger] s[j]) by {
            if j < s.len() - 1 {
                assert(s[j] == t[j]);
            }
        }
        if content_end(s) > 0 {
            assert(s[content_end(s) - 1] == t[content_end(s) - 1]);
        }
    }
}

pub proof fn lemma_content_end_unique(s: Seq<char>, e: int)
    requires
        0 <= e <= s.len(),
        forall|j: int| e <= j < s.len() ==> is_ws(#[trigger] s[j]),
        e > 0 ==> !is_ws(s[e - 1]),
    ensures
        content_end(s) == e,
{
    lemma_content_end(s);
    let c = content_end(s);
    if c < e {
        assert(is_ws(s[e - 1]));
    }
    if e < c {
        assert(is_ws(s[c - 1]));
    }
}

/// The characters of `s`, in order.
pub(crate) fn chars_of(s: &str) -> (v: Vec<char>)
    ensures
        v@ == s@,
{
    let mut v: Vec<char> = Vec::new();
    for c in it: s.chars()
        invariant
            v@ == it.seq().take(it.index() as int),
    {
        v.push(c);
    }
    v
}

/// Index of the first character of `v` in class `k` (`v.len()` if none).
pub(crate) fn find_first(v: &Vec<char>, k: CharClass) -> (r: usize)
    ensures
        r == first_in(v@, k),
{
    let mut i: usize = 0;
    while i < v.len()
        invariant
            0 <= i <= v.len(),
            forall|j: int| 0 <= j < i ==> !in_class(#[trigger] v@[j], k),
        decreases v.len() - i,
    {
        let c = v[i];
        let hit = match k {
            CharClass::Space => char_is_whitespace(c),
            CharClass::NonSpace => !char_is_whitespace(c),
            CharClass::Exactly(x) => c == x,
        };
        if hit {
            proof {
                lemma_first_in_unique(v@, k, i as int);
            }
            return i;
        }
        i = i + 1;
    }
    proof {
        lemma_first_in_unique(v@, k, i as int);
    }
    i
}

/// `str::trim`.
pub(crate) fn trim_str(s: &str) -> (r: &str)
    ensures
        r@ == trim(s@),
{
    let v = chars_of(s);
    let a = find_first(&v, CharClass::NonSpace);
    let mut b: usize = v.len();
    proof {
        lemma_first_in(v@, CharClass::NonSpace);
    }
    while b > a
        invariant
            a <= b <= v.len(),
            v@ == s@,
            a == first_in(v@, CharClass::NonSpace),
            forall|j: int| b <= j < v.len() ==> is_ws(#[trigger] v@[j]),
        ensures
            a <= b <= v.len(),
            b > a ==> !is_ws(v@[b - 1]),
            forall|j: int| b <= j < v.len() ==> is_ws(#[trigger] v@[j]),
        decreases b,
    {
        if !char_is_whitespace(v[b - 1]) {
            break;
        }
        b = b - 1;
    }
    proof {
        let t = s@.skip(a as int);
        lemma_first_in(v@, CharClass::NonSpace);
        assert forall|j: int| (b - a) <= j < t.len() implies is_ws(#[trigger] t[j]) by {
            assert(t[j] == v@[j + a]);
        }
        if b > a {
            assert(t[b - a - 1] == v@[b - 1]);
        }
        lemma_content_end_unique(t, b - a);
        assert(trim(s@) =~= s@.subrange(a as int, b as int));
    }
    s.substring_char(a, b)
}

/// `str::trim_start`.
pub(crate) fn trim_start_str(s: &str) -> (r: &str)
    ensures
        r@ == trim_start(s@),
{
    let v = chars_of(s);
    let a = find_first(&v, CharClass::NonSpace);
    proof {
        lemma_first_in(v@, CharClass::NonSpace);
    }
    s.substring_char(a, v.len())
}

// ---------------------------------------------------------------------------
// ASCII case mapping and literal comparison
// ---------------------------------------------------------------------------

pub open spec fn upper_char(c: char) -> char {
    if 'a' <= c && c <= 'z' {
        ((c as u32) - 32) as char
    } else {
        c
    }
}

pub open spec fn lower_char(c: char) -> char {
    if 'A' <= c && c <= 'Z' {
        ((c as u32) + 32) as char
    } else {
        c
    }
}

/// `str::to_ascii_uppercase`.
pub open spec fn ascii_upper(s: Seq<char>) -> Seq<char> {
    Seq::new(s.len(), |i: int| upper_char(s[i]))
}

/// `str::to_ascii_lowercase`.
pub open spec fn ascii_lower(s: Seq<char>) -> Seq<char> {
    Seq::new(s.len(), |i: int| lower_char(s[i]))
}

pub(crate) fn to_upper(c: char) -> (r: char)
    ensures
        r == upper_char(c),
{
    if c >= 'a' && c <= 'z' {
        let b: u8 = (c as u8) - 32;
        b as char
    } else {
        c
    }
}

pub(crate) fn to_lower(c: char) -> (r: char)
    ensures
        r == lower_char(c),
{
    if c >= 'A' && c <= 'Z' {
        let b: u8 = (c as u8) + 32;
        b as char
    } else {
        c
    }
}

/// The way a word is compared with a keyword.
#[derive(Clone, Copy)]
pub enum CaseFold {
    Exact,
    Upper,
    Lower,
}

pub open spec fn fold(s: Seq<char>, f: CaseFold) -> Seq<char> {
    match f {
        CaseFold::Exact => s,
        CaseFold::Upper => ascii_upper(s),
        CaseFold::Lower => ascii_lower(s),
    }
}

/// Whether `v`, case-folded by `f`, is exactly the text of `lit`.
pub(crate) fn folded_is(v: &Vec<char>, f: CaseFold, lit: &str) -> (r: bool)
    ensures
        r == (fold(v@, f) == lit@),
{
    let l = chars_of(lit);
    if l.len() != v.len() {
        proof {
            assert(fold(v@, f).len() != lit@.len());
        }
        return false;
    }
    let mut i: usize = 0;
    while i < v.len()
        invariant
            l@ == lit@,
            l.len() == v.len(),
            0 <= i <= v.len(),
            forall|j: int| 0 <= j < i ==> #[trigger] fold(v@, f)[j] == l@[j],
        decreases v.len() - i,
    {
        let c = match f {
            CaseFold::Exact => v[i],
            CaseFold::Upper => to_upper(v[i]),
            CaseFold::Lower => to_lower(v[i]),
        };
        if c != l[i] {
            proof {
                assert(fold(v@, f)[i as int] != lit@[i as int]);
            }
            return false;
        }
        i = i + 1;
    }
    proof {
        assert(fold(v@, f) =~= lit@);
    }
    true
}

/// Whether the text of `s` is exactly the text of `lit`.
pub(crate) fn str_is(s: &str, lit: &str) -> (r: bool)
    ensures
        r == (s@ == lit@),
{
    let v = chars_of(s);
    folded_is(&v, CaseFold::Exact, lit)
}

/// Whether `pat` occurs in `s` at index `i`.
pub open spec fn occurs_at(s: Seq<char>, pat: Seq<char>, i: int) -> bool {
    0 <= i && i + pat.len() <= s.len() && s.subrange(i, i + pat.len()) == pat
}

/// `str::contains` with a string pattern.
pub open spec fn contains_seq(s: Seq<char>, pat: Seq<char>) -> bool {
    exists|i: int| occurs_at(s, pat, i)
}

/// Whether `v` starts with the text of `lit` (`str::starts_with`).
pub(crate) fn starts_with_lit(v: &Vec<char>, lit: &str) -> (r: bool)
    ensures
        r == occurs_at(v@, lit@, 0),
{
    let l = chars_of(lit);
    if l.len() > v.len() {
        return false;
    }
    let mut i: usize = 0;
    while i < l.len()
        invariant
            l@ == lit@,
            l.len() <= v.len(),
            0 <= i <= l.len(),
            forall|j: int| 0 <= j < i ==> v@[j] == l@[j],
        decreases l.len() - i,
    {
        if v[i] != l[i] {
            proof {
                assert(v@.subrange(0, l@.len() as int)[i as int] != lit@[i as int]);
            }
            return false;
        }
        i = i + 1;
    }
    proof {
        assert(v@.subrange(0, l@.len() as int) =~= lit@);
    }
    true
}

/// `str::contains` with a string pattern.
pub(crate) fn contains_lit(s: &str, lit: &str) -> (r: bool)
    ensures
        r == contains_seq(s@, lit@),
{
    let v = chars_of(s);
    let l = chars_of(lit);
    if l.len() > v.len() {
        proof {
            assert forall|i: int| !occurs_at(s@, lit@, i) by {}
        }
        return false;
    }
    let last = v.len() - l.len();
    let mut i: usize = 0;
    while i <= last
        invariant
            v@ == s@,
            l@ == lit@,
            l.len() <= v.len(),
            last == v.len() - l.len(),
            0 <= i <= last + 1,
            forall|p: int| 0 <= p < i ==> !occurs_at(s@, lit@, p),
        decreases last + 1 - i,
    {
        let mut j: usize = 0;
        let mut same = true;
        while j < l.len()
            invariant
                v@ == s@,
                l@ == lit@,
                i + l.len() <= v.len(),
                0 <= j <= l.len(),
                same == (forall|q: int| 0 <= q < j ==> v@[i + q] == l@[q]),
            decreases l.len() - j,
        {
            if v[i + j] != l[j] {
                same = false;
            }
            j = j + 1;
        }
        if same {
            proof {
                assert(s@.subrange(i as int, i + lit@.len()) =~= lit@);
                assert(occurs_at(s@, lit@, i as int));
            }
            return true;
        }
        proof {
            let q = choose|q: int| 0 <= q < j && v@[i + q] != l@[q];
            assert(s@.subrange(i as int, i + lit@.len())[q] != lit@[q]);
        }
        i = i + 1;
    }
    proof {
        assert forall|p: int| !occurs_at(s@, lit@, p) by {
            if 0 <= p < i {
            }
        }
    }
    false
}

// ---------------------------------------------------------------------------
// Digits
// ---------------------------------------------------------------------------

/// The ASCII digit for `d` (`0 <= d < 10`).
pub open spec fn digit_char(d: int) -> char {
    (d + 48) as char
}

/// Decimal representation of `n`, without leading zeros.
pub open spec fn decimal(n: nat) -> Seq<char>
    decreases n,
{
    if n < 10 {
        seq![digit_char(n as int)]
    } else {
        decimal(n / 10).push(digit_char((n % 10) as int))
    }
}

/// Appends the decimal representation of `n` to `out`.
pub(crate) fn push_decimal(out: &mut String, n: u32)
    ensures
        final(out)@ == old(out)@ + decimal(n as nat),
    decreases n,
{
    if n >= 10 {
        push_decimal(out, n / 10);
    }
    let d: u8 = (n % 10) as u8;
    let c: char = (d + 48) as char;
    string_push(out, c);
    proof {
        assert(decimal(n as nat) == if n < 10 {
            seq![digit_char(n as int)]
        } else {
            decimal((n / 10) as nat).push(digit_char((n % 10) as int))
        });
    }
}

/// Upper-case hexadecimal digit for `d` (`0 <= d < 16`).
pub open spec fn hex_upper(d: int) -> char {
    if d < 10 {
        (d + 48) as char
    } else {
        (d + 55) as char
    }
}

/// Value of an ASCII hexadecimal digit byte, as `char::to_digit(16)` reads
/// it.
pub open spec fn hex_value(b: u8) -> Option<int> {
    if 48 <= b <= 57 {
        Some(b - 48)
    } else if 65 <= b <= 70 {
        Some(b - 55)
    } else if 97 <= b <= 102 {
        Some(b - 87)
    } else {
        None
    }
}

pub(crate) fn hex_upper_char(d: u8) -> (c: char)
    requires
        d < 16,
    ensures
        c == hex_upper(d as int),
{
    if d < 10 {
        (d + 48) as char
    } else {
        (d + 55) as char
    }
}

pub(crate) fn hex_digit_value(b: u8) -> (r: Option<u8>)
    ensures
        r matches Some(x) ==> hex_value(b) == Some(x as int),
        r is None ==> hex_value(b) is None,
{
    if b >= 48 && b <= 57 {
        Some(b - 48)
    } else if b >= 65 && b <= 70 {
        Some(b - 55)
    } else if b >= 97 && b <= 102 {
        Some(b - 87)
    } else {
        None
    }
}

} // verus!
