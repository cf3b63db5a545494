//! Character-level text operations on the `Seq<char>` view of strings:
//! trimming, prefix tests, concatenation and decimal rendering.
use vstd::prelude::*;
use vstd::string::*;

verus! {

/// Whether `c` has Unicode's `White_Space` property (the characters that
/// `char::is_whitespace` and `str::trim` treat as whitespace): U+0009 to
/// U+000D, U+0020, U+0085, U+00A0, U+1680, U+2000 to U+200A, U+2028, U+2029,
/// U+202F, U+205F and U+3000.
pub open spec fn unicode_whitespace(c: char) -> bool {
    ||| '\u{9}' <= c && c <= '\u{d}'
    ||| c == ' '
    ||| c == '\u{85}'
    ||| c == '\u{a0}'
    ||| c == '\u{1680}'
    ||| '\u{2000}' <= c && c <= '\u{200a}'
    ||| c == '\u{2028}'
    ||| c == '\u{2029}'
    ||| c == '\u{202f}'
    ||| c == '\u{205f}'
    ||| c == '\u{3000}'
}

/// Whether `c` is whitespace in Unicode's sense.
pub fn char_is_whitespace(c: char) -> (b: bool)
    ensures
        b == unicode_whitespace(c),
{
    ('\u{9}' <= c && c <= '\u{d}') || c == ' ' || c == '\u{85}' || c == '\u{a0}' || c == '\u{1680}'
        || ('\u{2000}' <= c && c <= '\u{200a}') || c == '\u{2028}' || c == '\u{2029}' || c
        == '\u{202f}' || c == '\u{205f}' || c == '\u{3000}'
}

/// Calls `String::push`: the character is appended at the end.
#[verifier::external_body]
pub(crate) fn push_char(s: &mut String, c: char)
    ensures
        final(s)@ == old(s)@.push(c),
{
    s.push(c)
}

/// The classes of characters that strings are trimmed of.
#[derive(Clone, Copy, Debug, PartialEq, Eq, Structural)]
pub enum CharClass {
    Whitespace,
    Slash,
    Hyphen,
}

pub open spec fn in_class(class: CharClass, c: char) -> bool {
    match class {
        CharClass::Whitespace => unicode_whitespace(c),
        CharClass::Slash => c == '/',
        CharClass::Hyphen => c == '-',
    }
}

pub fn char_in_class(class: CharClass, c: char) -> (b: bool)
    ensures
        b == in_class(class, c),
{
    match class {
        CharClass::Whitespace => char_is_whitespace(c),
        CharClass::Slash => c == '/',
        CharClass::Hyphen => c == '-',
    }
}

/// `s` without the characters of `class` at its start.
pub open spec fn trim_start_of(s: Seq<char>, class: CharClass) -> Seq<char>
    decreases s.len(),
{
    if s.len() > 0 && in_class(class, s[0]) {
        trim_start_of(s.drop_first(), class)
    } else {
        s
    }
}

/// `s` without the characters of `class` at its end.
pub open spec fn trim_end_of(s: Seq<char>, class: CharClass) -> Seq<char>
    decreases s.len(),
{
    if s.len() > 0 && in_class(class, s.last()) {
        trim_end_of(s.drop_last(), class)
    } else {
        s
    }
}

/// `s` without the characters of `class` at either end.
pub open spec fn trim_of(s: Seq<char>, class: CharClass) -> Seq<char> {
    trim_end_of(trim_start_of(s, class), class)
}

/// Where `trim_start_of` cuts `s`: everything before the index is in the
/// class, and the character at it (if any) is not.
pub proof fn trim_start_index(s: Seq<char>, class: CharClass) -> (a: int)
    ensures
        0 <= a <= s.len(),
        trim_start_of(s, class) == s.subrange(a, s.len() as int),
        forall|k: int| 0 <= k < a ==> in_class(class, #[trigger] s[k]),
        a < s.len() ==> !in_class(class, s[a]),
    decreases s.len(),
{
    if s.len() > 0 && in_class(class, s[0]) {
        let t = s.drop_first();
        let b = trim_start_index(t, class);
        assert(t.subrange(b, t.len() as int) =~= s.subrange(b + 1, s.len() as int));
        assert forall|k: int| 0 <= k < b + 1 implies in_class(class, #[trigger] s[k]) by {
            if k > 0 {
                assert(s[k] == t[k - 1]);
            }
        }
        if b + 1 < s.len() {
            assert(s[b + 1] == t[b]);
        }
        b + 1
    } else {
        assert(s.subrange(0, s.len() as int) =~= s);
        0
    }
}

/// Where `trim_end_of` cuts `s`: everything from the index on is in the
/// class, and the character before it (if any) is not.
pub proof fn trim_end_index(s: Seq<char>, class: CharClass) -> (b: int)
    ensures
        0 <= b <= s.len(),
        trim_end_of(s, class) == s.subrange(0, b),
        forall|k: int| b <= k < s.len() ==> in_class(class, #[trigger] s[k]),
        b > 0 ==> !in_class(class, s[b - 1]),
    decreases s.len(),
{
    if s.len() > 0 && in_class(class, s.last()) {
        let t = s.drop_last();
        let b = trim_end_index(t, class);
        assert(t.subrange(0, b) =~= s.subrange(0, b));
        assert forall|k: int| b <= k < s.len() implies in_class(class, #[trigger] s[k]) by {
            if k < s.len() - 1 {
                assert(s[k] == t[k]);
            }
        }
        if b > 0 {
            assert(s[b - 1] == t[b - 1]);
        }
        b
    } else {
        assert(s.subrange(0, s.len() as int) =~= s);
        s.len() as int
    }
}

/// `trim_of(s)` is the piece of `s` between two indices, nothing outside them
/// is out of the class, and its ends are out of the class.
pub proof fn trim_bounds(s: Seq<char>, class: CharClass) -> (ab: (int, int))
    ensures
        0 <= ab.0 <= ab.1 <= s.len(),
        trim_of(s, class) == s.subrange(ab.0, ab.1),
        forall|k: int| 0 <= k < ab.0 ==> in_class(class, #[trigger] s[k]),
        forall|k: int| ab.1 <= k < s.len() ==> in_class(class, #[trigger] s[k]),
        ab.0 < ab.1 ==> !in_class(class, s[ab.0]) && !in_class(class, s[ab.1 - 1]),
{
    let a = trim_start_index(s, class);
    let t = s.subrange(a, s.len() as int);
    let b = trim_end_index(t, class);
    assert(t.subrange(0, b) =~= s.subrange(a, a + b));
    assert forall|k: int| a + b <= k < s.len() implies in_class(class, #[trigger] s[k]) by {
        assert(s[k] == t[k - a]);
    }
    if b > 0 {
        assert(s[a + b - 1] == t[b - 1]);
        assert(s[a] == t[0]);
    }
    (a, a + b)
}

/// Trimming the start of `s` with one more character at its end: that
/// character stays, unless all of `s` is trimmed away, in which case the
/// character alone is trimmed.
pub proof fn lemma_trim_start_push(s: Seq<char>, class: CharClass, c: char)
    ensures
        trim_start_of(s.push(c), class) == if trim_start_of(s, class).len() > 0 {
            trim_start_of(s, class).push(c)
        } else {
            trim_start_of(seq![c], class)
        },
    decreases s.len(),
{
    if s.len() == 0 {
        assert(s.push(c) =~= seq![c]);
    } else if in_class(class, s[0]) {
        assert(s.push(c).drop_first() =~= s.drop_first().push(c));
        lemma_trim_start_push(s.drop_first(), class, c);
    } else {
        assert(s.push(c)[0] == s[0]);
    }
}

/// A character of the class at the start is trimmed away first.
pub proof fn lemma_trim_start_prepend(s: Seq<char>, class: CharClass, c: char)
    requires
        in_class(class, c),
    ensures
        trim_start_of(seq![c] + s, class) == trim_start_of(s, class),
{
    assert((seq![c] + s).drop_first() =~= s);
}

/// A character of the class at the end is trimmed away first.
pub proof fn lemma_trim_end_push(s: Seq<char>, class: CharClass, c: char)
    requires
        in_class(class, c),
    ensures
        trim_end_of(s.push(c), class) == trim_end_of(s, class),
{
    assert(s.push(c).drop_last() =~= s);
}

/// A character of the class added at either end is trimmed away again.
pub proof fn lemma_trim_ignores_added_class_char(s: Seq<char>, class: CharClass, c: char)
    requires
        in_class(class, c),
    ensures
        trim_of(s.push(c), class) == trim_of(s, class),
        trim_of(seq![c] + s, class) == trim_of(s, class),
{
    lemma_trim_start_prepend(s, class, c);
    lemma_trim_start_push(s, class, c);
    let ts = trim_start_of(s, class);
    if ts.len() > 0 {
        lemma_trim_end_push(ts, class, c);
    } else {
        assert(seq![c].drop_first() =~= Seq::<char>::empty());
        assert(seq![c][0] == c);
        assert(trim_start_of(Seq::<char>::empty(), class) =~= Seq::<char>::empty());
        assert(trim_start_of(seq![c], class) =~= Seq::<char>::empty());
        assert(ts =~= Seq::<char>::empty());
    }
}

/// Trimming a string that starts and ends outside the class changes nothing.
pub proof fn lemma_trim_unchanged(s: Seq<char>, class: CharClass)
    requires
        s.len() > 0,
        !in_class(class, s[0]),
        !in_class(class, s.last()),
    ensures
        trim_of(s, class) == s,
{
}

/// Trimming the end shortens or keeps a string.
pub proof fn lemma_trim_end_len(s: Seq<char>, class: CharClass)
    ensures
        trim_end_of(s, class).len() <= s.len(),
        trim_end_of(s, class) == s ==> s.len() == 0 || !in_class(class, s.last()),
    decreases s.len(),
{
    if s.len() > 0 && in_class(class, s.last()) {
        lemma_trim_end_len(s.drop_last(), class);
    }
}

/// Index of the first character of `s` outside `class`, or its length.
fn skip_class_forward(s: &str, len: usize, class: CharClass) -> (i: usize)
    requires
        len == s@.len(),
    ensures
        i <= len,
        forall|k: int| 0 <= k < i ==> in_class(class, #[trigger] s@[k]),
        i == len || !in_class(class, s@[i as int]),
{
    let mut i: usize = 0;
    while i < len
        invariant
            i <= len,
            len == s@.len(),
            forall|k: int| 0 <= k < i ==> in_class(class, #[trigger] s@[k]),
        decreases len - i,
    {
        let c = s.get_char(i);
        if !char_in_class(class, c) {
            return i;
        }
        i = i + 1;
    }
    i
}

/// One past the index of the last character of `s` at or after `lo` outside `class`, or `lo`.
fn skip_class_backward(s: &str, lo: usize, len: usize, class: CharClass) -> (j: usize)
    requires
        len == s@.len(),
        lo <= len,
    ensures
        lo <= j <= len,
        forall|k: int| j <= k < len ==> in_class(class, #[trigger] s@[k]),
        j == lo || !in_class(class, s@[j - 1]),
{
    let mut j: usize = len;
    while j > lo
        invariant
            lo <= j <= len,
            len == s@.len(),
            forall|k: int| j <= k < len ==> in_class(class, #[trigger] s@[k]),
        decreases j,
    {
        let c = s.get_char(j - 1);
        if !char_in_class(class, c) {
            return j;
        }
        j = j - 1;
    }
    j
}

/// The characters of `s` from `from` up to `to`, as a new `String`.
fn substring(s: &str, from: usize, to: usize) -> (r: String)
    requires
        from <= to <= s@.len(),
    ensures
        r@ == s@.subrange(from as int, to as int),
{
    let part = s.substring_char(from, to);
    String::from_str(part)
}

/// `s` without the characters of `class` at either end (`str::trim`, or
/// `str::trim_matches` with a single character).
pub fn trim_class(s: &str, class: CharClass) -> (r: String)
    ensures
        r@ == trim_of(s@, class),
{
    let len = s.unicode_len();
    let i = skip_class_forward(s, len, class);
    let j = skip_class_backward(s, i, len, class);
    proof {
        let a = trim_start_index(s@, class);
        if a < i {
            assert(in_class(class, s@[a]));
        }
        if i < a {
            assert(in_class(class, s@[i as int]));
        }
        let t = s@.subrange(i as int, len as int);
        let b = trim_end_index(t, class);
        if b < j - i {
            assert(t[j - i - 1] == s@[j - 1]);
        }
        if j - i < b {
            assert(t[b - 1] == s@[i + b - 1]);
        }
        assert(t.subrange(0, j - i) =~= s@.subrange(i as int, j as int));
    }
    substring(s, i, j)
}

/// `s` without the characters of `class` at its end (`str::trim_end_matches`
/// with a single character).
pub fn trim_end_class(s: &str, class: CharClass) -> (r: String)
    ensures
        r@ == trim_end_of(s@, class),
{
    let len = s.unicode_len();
    let j = skip_class_backward(s, 0, len, class);
    proof {
        let b = trim_end_index(s@, class);
        if b < j {
            assert(in_class(class, s@[j - 1]));
        }
        if j < b {
            assert(in_class(class, s@[b - 1]));
        }
    }
    substring(s, 0, j)
}

/// Whether `s` starts with `prefix` (`str::starts_with`).
pub fn starts_with(s: &str, prefix: &str) -> (b: bool)
    ensures
        b == prefix@.is_prefix_of(s@),
{
    let n = prefix.unicode_len();
    let m = s.unicode_len();
    if n > m {
        return false;
    }
    let mut i: usize = 0;
    while i < n
        invariant
            i <= n <= m,
            n == prefix@.len(),
            m == s@.len(),
            forall|k: int| 0 <= k < i ==> prefix@[k] == s@[k],
        decreases n - i,
    {
        if prefix.get_char(i) != s.get_char(i) {
            return false;
        }
        i = i + 1;
    }
    assert(prefix@ =~= s@.subrange(0, n as int));
    true
}

/// Whether the two strings hold the same characters.
pub fn same_text(a: &str, b: &str) -> (r: bool)
    ensures
        r == (a@ == b@),
{
    let n = a.unicode_len();
    let m = b.unicode_len();
    if n != m {
        return false;
    }
    let mut i: usize = 0;
    while i < n
        invariant
            i <= n,
            n == a@.len(),
            m == b@.len(),
            n == m,
            forall|k: int| 0 <= k < i ==> a@[k] == b@[k],
        decreases n - i,
    {
        if a.get_char(i) != b.get_char(i) {
            return false;
        }
        i = i + 1;
    }
    assert(a@ =~= b@);
    true
}

/// The characters of `s` after its first `n`, as a new `String`.
pub fn skip_chars(s: &str, n: usize) -> (r: String)
    requires
        n <= s@.len(),
    ensures
        r@ == s@.skip(n as int),
{
    let len = s.unicode_len();
    let r = substring(s, n, len);
    assert(s@.subrange(n as int, len as int) =~= s@.skip(n as int));
    r
}

/// A new `String` holding the characters of `s`.
pub fn owned(s: &str) -> (r: String)
    ensures
        r@ == s@,
{
    String::from_str(s)
}

/// The decimal digit for `d < 10`.
pub open spec fn digit_char(d: nat) -> char {
    if d == 0 {
        '0'
    } else if d == 1 {
        '1'
    } else if d == 2 {
        '2'
    } else if d == 3 {
        '3'
    } else if d == 4 {
        '4'
    } else if d == 5 {
        '5'
    } else if d == 6 {
        '6'
    } else if d == 7 {
        '7'
    } else if d == 8 {
        '8'
    } else {
        '9'
    }
}

/// The decimal rendering of `n`, without leading zeros (`"0"` for zero), as `Display` writes it.
pub open spec fn decimal(n: nat) -> Seq<char>
    decreases n,
{
    if n < 10 {
        seq![digit_char(n)]
    } else {
        decimal(n / 10).push(digit_char(n % 10))
    }
}

fn digit_for(d: u64) -> (c: char)
    requires
        d < 10,
    ensures
        c == digit_char(d as nat),
{
    if d == 0 {
        '0'
    } else if d == 1 {
        '1'
    } else if d == 2 {
        '2'
    } else if d == 3 {
        '3'
    } else if d == 4 {
        '4'
    } else if d == 5 {
        '5'
    } else if d == 6 {
        '6'
    } else if d == 7 {
        '7'
    } else if d == 8 {
        '8'
    } else {
        '9'
    }
}

/// Appends the decimal rendering of `n` to `out`.
pub fn push_decimal(out: &mut String, n: u64)
    ensures
        final(out)@ == old(out)@ + decimal(n as nat),
    decreases n,
{
    if n < 10 {
        push_char(out, digit_for(n));
        assert(old(out)@.push(digit_char(n as nat)) =~= old(out)@ + decimal(n as nat));
    } else {
        push_decimal(out, n / 10);
        push_char(out, digit_for(n % 10));
        assert(old(out)@ + decimal((n / 10) as nat) + seq![digit_char((n % 10) as nat)]
            =~= old(out)@ + decimal(n as nat));
    }
}

/// The decimal rendering of `n`, as `n.to_string()` gives it.
pub fn decimal_string(n: u64) -> (r: String)
    ensures
        r@ == decimal(n as nat),
{
    let mut out = String::new();
    push_decimal(&mut out, n);
    assert(Seq::<char>::empty() + decimal(n as nat) =~= decimal(n as nat));
    out
}

} // verus!
