//! Turning free text into identifiers for Guacamole connections: lower-case
//! ASCII letters and digits, separated by single hyphens.
use vstd::prelude::*;
use vstd::string::*;

use crate::text;
use crate::text::{push_char, trim_class, CharClass};

verus! {

/// ASCII letters and digits.
pub open spec fn is_ascii_alnum(c: char) -> bool {
    ('a' <= c && c <= 'z') || ('A' <= c && c <= 'Z') || ('0' <= c && c <= '9')
}

/// ASCII upper-case letters in lower case; every other character unchanged.
pub open spec fn ascii_lower(c: char) -> char {
    if 'A' <= c && c <= 'Z' {
        ((c as u32) + 32) as char
    } else {
        c
    }
}

/// Each character of the input becomes its ASCII lower-case form if it is an
/// ASCII letter or digit, and a hyphen otherwise.
pub open spec fn sanitized_char(c: char) -> char {
    if is_ascii_alnum(c) {
        ascii_lower(c)
    } else {
        '-'
    }
}

/// `s` with every hyphen that directly follows another hyphen removed.
pub open spec fn collapse_hyphens(s: Seq<char>) -> Seq<char>
    decreases s.len(),
{
    if s.len() == 0 {
        Seq::empty()
    } else if s.last() == '-' && s.len() >= 2 && s[s.len() - 2] == '-' {
        collapse_hyphens(s.drop_last())
    } else {
        collapse_hyphens(s.drop_last()).push(s.last())
    }
}

/// What `sanitize_identifier` makes of `s`: characters mapped by
/// `sanitized_char`, runs of hyphens collapsed to one, and hyphens at either
/// end removed.
pub open spec fn sanitized(s: Seq<char>) -> Seq<char> {
    text::trim_of(collapse_hyphens(s.map_values(|c: char| sanitized_char(c))), CharClass::Hyphen)
}

/// Characters that may appear in a sanitized identifier.
pub open spec fn is_identifier_char(c: char) -> bool {
    ('a' <= c && c <= 'z') || ('0' <= c && c <= '9') || c == '-'
}

pub open spec fn no_double_hyphen(s: Seq<char>) -> bool {
    forall|i: int| 0 <= i < s.len() - 1 ==> !(#[trigger] s[i] == '-' && s[i + 1] == '-')
}

/// The shape of every sanitized identifier: lower-case ASCII letters, digits
/// and hyphens, no two hyphens in a row, and no hyphen at either end.
pub open spec fn is_clean_identifier(s: Seq<char>) -> bool {
    &&& forall|i: int| 0 <= i < s.len() ==> is_identifier_char(#[trigger] s[i])
    &&& no_double_hyphen(s)
    &&& s.len() > 0 ==> s[0] != '-' && s.last() != '-'
}

fn char_is_ascii_alnum(c: char) -> (b: bool)
    ensures
        b == is_ascii_alnum(c),
{
    ('a' <= c && c <= 'z') || ('A' <= c && c <= 'Z') || ('0' <= c && c <= '9')
}

fn char_to_ascii_lower(c: char) -> (r: char)
    ensures
        r == ascii_lower(c),
{
    if 'A' <= c && c <= 'Z' {
        let b: u8 = c as u8;
        (b + 32) as char
    } else {
        c
    }
}

/// Lower-cases ASCII letters and digits, turns every other character into a
/// hyphen, collapses runs of hyphens into one and strips hyphens at both ends.
pub fn sanitize_identifier(input: &str) -> (r: String)
    ensures
        r@ == sanitized(input@),
{
    let n = input.unicode_len();
    let ghost mapped = input@.map_values(|c: char| sanitized_char(c));
    let mut result = String::new();
    let mut prev_hyphen = false;
    let mut i: usize = 0;
    assert(mapped.take(0) =~= Seq::<char>::empty());
    while i < n
        invariant
            i <= n,
            n == input@.len(),
            mapped == input@.map_values(|c: char| sanitized_char(c)),
            result@ == collapse_hyphens(mapped.take(i as int)),
            prev_hyphen == (i > 0 && mapped[i - 1] == '-'),
        decreases n - i,
    {
        let ch = input.get_char(i);
        let c = if char_is_ascii_alnum(ch) {
            char_to_ascii_lower(ch)
        } else {
            '-'
        };
        assert(c == mapped[i as int]);
        let ghost next = mapped.take(i + 1);
        assert(next.drop_last() =~= mapped.take(i as int));
        assert(next.last() == c);
        if c == '-' {
            if !prev_hyphen {
                push_char(&mut result, '-');
            }
            prev_hyphen = true;
        } else {
            push_char(&mut result, c);
            prev_hyphen = false;
        }
        i = i + 1;
    }
    assert(mapped.take(n as int) =~= mapped);
    trim_class(result.as_str(), CharClass::Hyphen)
}

// ---------------------------------------------------------------------------
// Facts about collapsing used by the laws below.

proof fn lemma_collapse_last(s: Seq<char>)
    requires
        s.len() > 0,
    ensures
        collapse_hyphens(s).len() > 0,
        collapse_hyphens(s).last() == s.last(),
    decreases s.len(),
{
    if s.last() == '-' && s.len() >= 2 && s[s.len() - 2] == '-' {
        lemma_collapse_last(s.drop_last());
    }
}

proof fn lemma_collapse_shape(s: Seq<char>)
    ensures
        no_double_hyphen(collapse_hyphens(s)),
        (forall|i: int| 0 <= i < s.len() ==> is_identifier_char(#[trigger] s[i])) ==> (forall|
            i: int,
        | 0 <= i < collapse_hyphens(s).len() ==> is_identifier_char(
            #[trigger] collapse_hyphens(s)[i],
        )),
    decreases s.len(),
{
    if s.len() > 0 {
        let p = s.drop_last();
        lemma_collapse_shape(p);
        let r = collapse_hyphens(p);
        if s.last() == '-' && s.len() >= 2 && s[s.len() - 2] == '-' {
            if forall|i: int| 0 <= i < s.len() ==> is_identifier_char(#[trigger] s[i]) {
                assert forall|i: int| 0 <= i < p.len() implies is_identifier_char(#[trigger] p[i]) by {
                    assert(p[i] == s[i]);
                }
            }
        } else {
            let q = r.push(s.last());
            if p.len() > 0 {
                lemma_collapse_last(p);
            }
            assert forall|i: int| 0 <= i < q.len() - 1 implies !(#[trigger] q[i] == '-' && q[i
                + 1] == '-') by {
                if i < r.len() - 1 {
                    assert(q[i] == r[i] && q[i + 1] == r[i + 1]);
                } else {
                    assert(q[i] == r.last());
                    assert(r.last() == p.last());
                    assert(p.last() == s[s.len() - 2]);
                }
            }
            if forall|i: int| 0 <= i < s.len() ==> is_identifier_char(#[trigger] s[i]) {
                assert forall|i: int| 0 <= i < p.len() implies is_identifier_char(#[trigger] p[i]) by {
                    assert(p[i] == s[i]);
                }
                assert forall|i: int| 0 <= i < q.len() implies is_identifier_char(#[trigger] q[i]) by {
                    if i < r.len() {
                        assert(q[i] == r[i]);
                    } else {
                        assert(q[i] == s[s.len() - 1]);
                    }
                }
            }
        }
    }
}

/// A sequence with no two hyphens in a row is its own collapse.
proof fn lemma_collapse_fixed(s: Seq<char>)
    requires
        no_double_hyphen(s),
    ensures
        collapse_hyphens(s) == s,
    decreases s.len(),
{
    if s.len() > 0 {
        let p = s.drop_last();
        assert forall|i: int| 0 <= i < p.len() - 1 implies !(#[trigger] p[i] == '-' && p[i + 1]
            == '-') by {
            assert(p[i] == s[i] && p[i + 1] == s[i + 1]);
        }
        lemma_collapse_fixed(p);
        if s.len() >= 2 {
            assert(!(s[s.len() - 2] == '-' && s[s.len() - 1] == '-'));
        }
        assert(p.push(s.last()) =~= s);
    } else {
        assert(s =~= Seq::<char>::empty());
    }
}

/// A character that is not a hyphen survives collapsing.
proof fn lemma_collapse_keeps_non_hyphen(s: Seq<char>, k: int)
    requires
        0 <= k < s.len(),
        s[k] != '-',
    ensures
        exists|j: int| 0 <= j < collapse_hyphens(s).len() && #[trigger] collapse_hyphens(s)[j] != '-',
    decreases s.len(),
{
    let r = collapse_hyphens(s);
    if k == s.len() - 1 {
        lemma_collapse_last(s);
        assert(r[r.len() - 1] != '-');
    } else {
        let p = s.drop_last();
        assert(p[k] == s[k]);
        lemma_collapse_keeps_non_hyphen(p, k);
        let q = collapse_hyphens(p);
        let j = choose|j: int| 0 <= j < q.len() && #[trigger] q[j] != '-';
        if s.last() == '-' && s.len() >= 2 && s[s.len() - 2] == '-' {
            assert(r[j] != '-');
        } else {
            assert(r[j] == q[j]);
        }
    }
}

// ---------------------------------------------------------------------------
// Laws.

/// Every sanitized identifier is clean: it holds only lower-case ASCII
/// letters, digits and hyphens, never two hyphens in a row, and no hyphen at
/// either end.
pub proof fn law_sanitized_is_clean(s: Seq<char>)
    ensures
        is_clean_identifier(sanitized(s)),
{
    let m = s.map_values(|c: char| sanitized_char(c));
    assert forall|i: int| 0 <= i < m.len() implies is_identifier_char(#[trigger] m[i]) by {
        let c = s[i];
        assert(m[i] == sanitized_char(c));
        if 'A' <= c && c <= 'Z' {
            assert(((c as u32) + 32) as char == ascii_lower(c));
            assert('a' <= ascii_lower(c) && ascii_lower(c) <= 'z');
        }
    }
    lemma_collapse_shape(m);
    let c = collapse_hyphens(m);
    let (a, b) = text::trim_bounds(c, CharClass::Hyphen);
    let t = sanitized(s);
    assert(t == c.subrange(a, b));
    assert forall|i: int| 0 <= i < t.len() implies is_identifier_char(#[trigger] t[i]) by {
        assert(t[i] == c[a + i]);
    }
    assert forall|i: int| 0 <= i < t.len() - 1 implies !(#[trigger] t[i] == '-' && t[i + 1]
        == '-') by {
        assert(t[i] == c[a + i] && t[i + 1] == c[a + i + 1]);
    }
    if t.len() > 0 {
        assert(t[0] == c[a]);
        assert(t.last() == c[b - 1]);
    }
}

/// A clean identifier is left as it is: sanitizing it changes nothing.
pub proof fn law_clean_identifier_is_fixed(s: Seq<char>)
    requires
        is_clean_identifier(s),
    ensures
        sanitized(s) == s,
{
    let m = s.map_values(|c: char| sanitized_char(c));
    assert forall|i: int| 0 <= i < s.len() implies #[trigger] m[i] == s[i] by {
        assert(is_identifier_char(s[i]));
    }
    assert(m =~= s);
    lemma_collapse_fixed(s);
    let (a, b) = text::trim_bounds(s, CharClass::Hyphen);
    if s.len() > 0 {
        assert(!text::in_class(CharClass::Hyphen, s[0]));
        assert(a == 0);
        assert(!text::in_class(CharClass::Hyphen, s[s.len() - 1]));
        assert(b == s.len());
    }
    assert(s.subrange(a, b) =~= s);
}

/// Sanitizing is idempotent: a sanitized identifier sanitizes to itself.
pub proof fn law_sanitize_idempotent(s: Seq<char>)
    ensures
        sanitized(sanitized(s)) == sanitized(s),
{
    law_sanitized_is_clean(s);
    law_clean_identifier_is_fixed(sanitized(s));
}

/// The sanitized identifier is empty exactly when the input holds no ASCII
/// letter or digit.
pub proof fn law_sanitized_empty(s: Seq<char>)
    ensures
        sanitized(s).len() == 0 <==> (forall|i: int| 0 <= i < s.len() ==> !is_ascii_alnum(
            #[trigger] s[i],
        )),
{
    let m = s.map_values(|c: char| sanitized_char(c));
    let c = collapse_hyphens(m);
    let (a, b) = text::trim_bounds(c, CharClass::Hyphen);
    if exists|i: int| 0 <= i < s.len() && is_ascii_alnum(#[trigger] s[i]) {
        let k = choose|i: int| 0 <= i < s.len() && is_ascii_alnum(#[trigger] s[i]);
        assert(m[k] == sanitized_char(s[k]));
        if 'A' <= s[k] && s[k] <= 'Z' {
            assert(((s[k] as u32) + 32) as char == ascii_lower(s[k]));
        }
        assert(m[k] != '-');
        lemma_collapse_keeps_non_hyphen(m, k);
        let j = choose|j: int| 0 <= j < c.len() && #[trigger] c[j] != '-';
        assert(!text::in_class(CharClass::Hyphen, c[j]));
        assert(a <= j < b);
    } else {
        assert forall|j: int| 0 <= j < c.len() implies #[trigger] c[j] == '-' by {
            if c[j] != '-' {
                assert forall|i: int| 0 <= i < m.len() implies #[trigger] m[i] == '-' by {
                    assert(!is_ascii_alnum(s[i]));
                }
                lemma_collapse_only_hyphens(m, j);
            }
        }
        if a < b {
            assert(c[a] == '-');
        }
    }
}

proof fn lemma_collapse_only_hyphens(s: Seq<char>, j: int)
    requires
        forall|i: int| 0 <= i < s.len() ==> #[trigger] s[i] == '-',
        0 <= j < collapse_hyphens(s).len(),
    ensures
        collapse_hyphens(s)[j] == '-',
    decreases s.len(),
{
    let p = s.drop_last();
    assert forall|i: int| 0 <= i < p.len() implies #[trigger] p[i] == '-' by {
        assert(p[i] == s[i]);
    }
    let r = collapse_hyphens(p);
    if j < r.len() {
        lemma_collapse_only_hyphens(p, j);
    }
}

/// `c` is an ASCII letter or digit, as `char::is_ascii_alphanumeric`
/// defines it: U+0041 to U+005A, U+0061 to U+007A, or U+0030 to U+0039.
pub open spec fn std_ascii_alphanumeric(c: char) -> bool {
    let u = c as u32;
    (0x41 <= u && u <= 0x5a) || (0x61 <= u && u <= 0x7a) || (0x30 <= u && u <= 0x39)
}

/// `c` lower-cased as `char::to_ascii_lowercase` does: U+0041 to U+005A map
/// to U+0061 to U+007A, every other character is kept.
pub open spec fn std_ascii_lowercase(c: char) -> char {
    let u = c as u32;
    if 0x41 <= u && u <= 0x5a {
        (u + 0x20) as char
    } else {
        c
    }
}

proof fn lemma_std_agrees(c: char)
    ensures
        std_ascii_alphanumeric(c) == is_ascii_alnum(c),
        std_ascii_alphanumeric(c) ==> sanitized_char(c) == std_ascii_lowercase(c),
        !std_ascii_alphanumeric(c) ==> sanitized_char(c) == '-',
        std_ascii_alphanumeric(c) ==> std_ascii_lowercase(c) != '-',
{
}

/// `s` holds an ASCII letter or digit.
pub open spec fn has_alphanumeric(s: Seq<char>) -> bool {
    exists|i: int| 0 <= i < s.len() && std_ascii_alphanumeric(#[trigger] s[i])
}

/// How sanitizing grows, one input character at a time: a character other
/// than an ASCII letter or digit adds nothing by itself; an ASCII letter or
/// digit is appended lower-cased, directly after a letter or digit, after a
/// single hyphen when other characters separate it from the previous letter
/// or digit, and alone when it is the first letter or digit. Together with
/// `sanitized(empty) == empty` this fixes the result on every input.
pub proof fn law_sanitize_one_more_char(s: Seq<char>, c: char)
    ensures
        sanitized(Seq::<char>::empty()) == Seq::<char>::empty(),
        !std_ascii_alphanumeric(c) ==> sanitized(s.push(c)) == sanitized(s),
        std_ascii_alphanumeric(c) && s.len() > 0 && std_ascii_alphanumeric(s.last()) ==> sanitized(
            s.push(c),
        ) == sanitized(s).push(std_ascii_lowercase(c)),
        std_ascii_alphanumeric(c) && has_alphanumeric(s) && !std_ascii_alphanumeric(s.last())
            ==> sanitized(s.push(c)) == sanitized(s).push('-').push(std_ascii_lowercase(c)),
        std_ascii_alphanumeric(c) && !has_alphanumeric(s) ==> sanitized(s.push(c)) == seq![
            std_ascii_lowercase(c),
        ],
{
    let hy = CharClass::Hyphen;
    let e = Seq::<char>::empty();
    assert(e.map_values(|c: char| sanitized_char(c)) =~= e);
    assert(collapse_hyphens(e) =~= e);
    assert(text::trim_start_of(e, hy) =~= e);
    assert(text::trim_end_of(e, hy) =~= e);

    let m = s.map_values(|c: char| sanitized_char(c));
    let m2 = s.push(c).map_values(|c: char| sanitized_char(c));
    assert(m2 =~= m.push(sanitized_char(c)));
    assert(m2.drop_last() =~= m);
    let cc = collapse_hyphens(m);
    let ts = text::trim_start_of(cc, hy);
    lemma_std_agrees(c);
    lemma_collapse_shape(m);
    // Does the collapsed text hold a letter or digit?
    if has_alphanumeric(s) {
        let k = choose|i: int| 0 <= i < s.len() && std_ascii_alphanumeric(#[trigger] s[i]);
        lemma_std_agrees(s[k]);
        assert(m[k] == sanitized_char(s[k]));
        lemma_collapse_keeps_non_hyphen(m, k);
    } else {
        assert forall|i: int| 0 <= i < m.len() implies #[trigger] m[i] == '-' by {
            lemma_std_agrees(s[i]);
        }
    }
    let a = text::trim_start_index(cc, hy);
    if s.len() > 0 {
        lemma_collapse_last(m);
        lemma_std_agrees(s.last());
        assert(m.last() == sanitized_char(s.last()));
    }
    if !has_alphanumeric(s) {
        assert forall|j: int| 0 <= j < cc.len() implies #[trigger] cc[j] == '-' by {
            lemma_collapse_only_hyphens(m, j);
        }
        if a < cc.len() {
            assert(cc[a] == '-');
        }
        assert(ts.len() == 0);
    } else {
        let j = choose|j: int| 0 <= j < cc.len() && #[trigger] cc[j] != '-';
        if a > j {
            assert(text::in_class(hy, cc[j]));
        }
        assert(ts.len() > 0);
        assert(ts.last() == cc.last());
    }
    text::lemma_trim_start_push(cc, hy, sanitized_char(c));
    if !std_ascii_alphanumeric(c) {
        // the new hyphen is dropped by collapsing or by trimming the end
        if cc.len() > 0 && s.len() > 0 && m.last() == '-' {
            assert(collapse_hyphens(m2) == cc);
        } else {
            assert(collapse_hyphens(m2) == cc.push('-'));
            if ts.len() > 0 {
                text::lemma_trim_end_push(ts, hy, '-');
            } else {
                assert(seq!['-'].drop_first() =~= e);
                assert(seq!['-'][0] == '-');
                assert(text::trim_start_of(seq!['-'], hy) =~= e);
                assert(ts =~= e);
            }
        }
    } else {
        let l = std_ascii_lowercase(c);
        assert(collapse_hyphens(m2) == cc.push(l));
        if ts.len() > 0 {
            assert(text::trim_start_of(cc.push(l), hy) == ts.push(l));
        } else {
            assert(seq![l][0] == l);
            assert(text::trim_start_of(seq![l], hy) == seq![l]);
        }
        let x = text::trim_start_of(cc.push(l), hy);
        assert(x.len() > 0 && x.last() == l);
        assert(text::trim_end_of(x, hy) == x);
        if has_alphanumeric(s) && s.len() > 0 && std_ascii_alphanumeric(s.last()) {
            assert(ts.last() != '-');
            assert(text::trim_end_of(ts, hy) == ts);
        } else if has_alphanumeric(s) {
            // ts ends in a single hyphen, preceded by a letter or digit
            assert(ts.last() == '-');
            let (a0, b0) = text::trim_bounds(cc, hy);
            assert(ts == cc.subrange(a, cc.len() as int));
            assert(ts[0] == cc[a]);
            assert(ts.len() >= 2);
            assert(ts[ts.len() - 2] == cc[cc.len() - 2]);
            assert(cc[cc.len() - 2] != '-');
            let td = ts.drop_last();
            assert(td.last() != '-');
            assert(text::trim_end_of(td, hy) == td);
            assert(text::trim_end_of(ts, hy) == text::trim_end_of(td, hy));
            assert(td.push('-') =~= ts);
        } else {
            assert(text::trim_end_of(ts, hy) =~= e);
        }
    }
}

} // verus!
