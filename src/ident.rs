//! The canonical external spelling of a variant's name: camel case becomes
//! lower case with a hyphen before each inner upper-case letter.
use vstd::prelude::*;

verus! {

pub open spec fn is_upper(c: char) -> bool {
    'A' <= c && c <= 'Z'
}

pub open spec fn lower(c: char) -> char {
    if is_upper(c) {
        ((c as u8) + 32u8) as char
    } else {
        c
    }
}

/// The name without its trailing underscores.
pub open spec fn trim_underscores(s: Seq<char>) -> Seq<char>
    decreases s.len(),
{
    if s.len() > 0 && s.last() == '_' {
        trim_underscores(s.drop_last())
    } else {
        s
    }
}

/// Each character lowered, with a hyphen before every upper-case letter
/// that does not open the name.
pub open spec fn hyphenate(s: Seq<char>) -> Seq<char>
    decreases s.len(),
{
    if s.len() == 0 {
        Seq::empty()
    } else if s.len() == 1 {
        seq![lower(s[0])]
    } else if is_upper(s.last()) {
        hyphenate(s.drop_last()) + seq!['-', lower(s.last())]
    } else {
        hyphenate(s.drop_last()).push(lower(s.last()))
    }
}

/// Whether the first camel-case segment of `s` is exactly `w`.
pub open spec fn first_segment_is(s: Seq<char>, w: Seq<char>) -> bool {
    s.len() >= w.len() && s.subrange(0, w.len() as int) == w && (s.len() == w.len() || is_upper(
        s[w.len() as int],
    ))
}

/// A vendor-prefixed name (`MozFoo`, `WebkitFoo`, `ServoFoo`) takes a
/// leading hyphen.
pub open spec fn has_vendor_prefix(s: Seq<char>) -> bool {
    first_segment_is(s, seq!['M', 'o', 'z']) || first_segment_is(s, seq!['W', 'e', 'b', 'k', 'i', 't'])
        || first_segment_is(s, seq!['S', 'e', 'r', 'v', 'o'])
}

pub open spec fn css_identifier(name: Seq<char>) -> Seq<char> {
    let t = trim_underscores(name);
    if has_vendor_prefix(t) {
        seq!['-'] + hyphenate(t)
    } else {
        hyphenate(t)
    }
}

/// Relies on `String::push`: appends one character.
#[verifier::external_body]
fn push_char(s: &mut String, c: char)
    ensures
        final(s)@ == old(s)@.push(c),
{
    s.push(c)
}

fn lower_char(c: char) -> (r: char)
    ensures
        r == lower(c),
{
    if 'A' <= c && c <= 'Z' {
        ((c as u8) + 32u8) as char
    } else {
        c
    }
}

fn is_upper_char(c: char) -> (r: bool)
    ensures
        r == is_upper(c),
{
    'A' <= c && c <= 'Z'
}

fn segment_matches(s: &Vec<char>, w: &[char]) -> (r: bool)
    ensures
        r == first_segment_is(s@, w@),
{
    if s.len() < w.len() {
        return false;
    }
    let mut i: usize = 0;
    while i < w.len()
        invariant
            i <= w.len() <= s.len(),
            s@.subrange(0, i as int) == w@.subrange(0, i as int),
        decreases w.len() - i,
    {
        if s[i] != w[i] {
            assert(s@.subrange(0, w.len() as int)[i as int] != w@[i as int]);
            return false;
        }
        assert(s@.subrange(0, i + 1) == s@.subrange(0, i as int).push(s@[i as int]));
        assert(w@.subrange(0, i + 1) == w@.subrange(0, i as int).push(w@[i as int]));
        i = i + 1;
    }
    assert(w@.subrange(0, w.len() as int) == w@);
    s.len() == w.len() || is_upper_char(s[w.len()])
}

proof fn lemma_trim_take(s: Seq<char>, end: int)
    requires
        0 <= end < s.len(),
        s[end] == '_',
        trim_underscores(s.take(end + 1)) == trim_underscores(s),
    ensures
        trim_underscores(s.take(end)) == trim_underscores(s),
{
    assert(s.take(end + 1).drop_last() == s.take(end));
}

/// The canonical external spelling of a variant name.
pub fn to_css_identifier(name: &str) -> (r: String)
    ensures
        r@ == css_identifier(name@),
{
    let n = name.unicode_len();
    let mut end: usize = n;
    assert(name@.take(n as int) == name@);
    while end > 0 && name.get_char(end - 1) == '_'
        invariant
            end <= n == name@.len(),
            trim_underscores(name@.take(end as int)) == trim_underscores(name@),
        decreases end,
    {
        proof { lemma_trim_take(name@, end - 1); }
        end = end - 1;
    }
    let mut chars: Vec<char> = Vec::new();
    let mut i: usize = 0;
    while i < end
        invariant
            i <= end <= n == name@.len(),
            chars@ == name@.take(i as int),
        decreases end - i,
    {
        chars.push(name.get_char(i));
        assert(name@.take(i + 1) == name@.take(i as int).push(name@[i as int]));
        i = i + 1;
    }
    let t = Ghost(name@.take(end as int));
    assert(chars@ == t@);
    assert(trim_underscores(t@) == t@);
    let mut out = String::new();
    let vendor = segment_matches(&chars, &['M', 'o', 'z']) || segment_matches(
        &chars,
        &['W', 'e', 'b', 'k', 'i', 't'],
    ) || segment_matches(&chars, &['S', 'e', 'r', 'v', 'o']);
    if vendor {
        push_char(&mut out, '-');
    }
    let ghost start = out@;
    let mut j: usize = 0;
    while j < chars.len()
        invariant
            j <= chars.len(),
            chars@ == t@,
            out@ == start + hyphenate(t@.take(j as int)),
        decreases chars.len() - j,
    {
        let c = chars[j];
        assert(t@.take(j + 1).drop_last() == t@.take(j as int));
        if j > 0 && is_upper_char(c) {
            push_char(&mut out, '-');
        }
        push_char(&mut out, lower_char(c));
        j = j + 1;
    }
    assert(t@.take(chars.len() as int) =~= t@);
    out
}

} // verus!
