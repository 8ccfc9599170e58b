//! Text as sequences of characters: prefixes, white space, words and separators.

use vstd::prelude::*;

verus! {

/// Whether `c` has the Unicode property `White_Space`.
pub open spec fn is_white_space(c: char) -> bool {
    ||| 0x9 <= c as u32 <= 0xd
    ||| c as u32 == 0x20
    ||| c as u32 == 0x85
    ||| c as u32 == 0xa0
    ||| c as u32 == 0x1680
    ||| 0x2000 <= c as u32 <= 0x200a
    ||| c as u32 == 0x2028
    ||| c as u32 == 0x2029
    ||| c as u32 == 0x202f
    ||| c as u32 == 0x205f
    ||| c as u32 == 0x3000
}

/// The predicate that holds of white space.
pub open spec fn blank() -> spec_fn(char) -> bool {
    |c: char| is_white_space(c)
}

/// The predicate that holds of everything but white space.
pub open spec fn ink() -> spec_fn(char) -> bool {
    |c: char| !is_white_space(c)
}

/// The predicate that holds of every character but `sep`.
pub open spec fn other_than(sep: char) -> spec_fn(char) -> bool {
    |c: char| c != sep
}

/// Whether `s` begins with `prefix`.
pub open spec fn has_prefix(s: Seq<char>, prefix: Seq<char>) -> bool {
    prefix.len() <= s.len() && s.take(prefix.len() as int) == prefix
}

/// How many characters at the start of `s` satisfy `p` without a gap.
pub open spec fn lead_len(s: Seq<char>, p: spec_fn(char) -> bool) -> nat
    decreases s.len(),
{
    if s.len() == 0 || !p(s[0]) {
        0
    } else {
        1 + lead_len(s.drop_first(), p)
    }
}

/// How many characters at the end of `s` satisfy `p` without a gap.
pub open spec fn trail_len(s: Seq<char>, p: spec_fn(char) -> bool) -> nat
    decreases s.len(),
{
    if s.len() == 0 || !p(s.last()) {
        0
    } else {
        1 + trail_len(s.drop_last(), p)
    }
}

/// `s` without the white space at its start.
pub open spec fn trim_start(s: Seq<char>) -> Seq<char> {
    s.skip(lead_len(s, blank()) as int)
}

/// `s` without the white space at its end.
pub open spec fn trim_end(s: Seq<char>) -> Seq<char> {
    s.take(s.len() - trail_len(s, blank()))
}

/// `s` without the white space at either end.
pub open spec fn trim(s: Seq<char>) -> Seq<char> {
    trim_end(trim_start(s))
}

/// The first run of characters in `s` that are not white space, if there is one.
pub open spec fn first_word(s: Seq<char>) -> Option<Seq<char>> {
    let t = trim_start(s);
    if t.len() == 0 {
        None
    } else {
        Some(t.take(lead_len(t, ink()) as int))
    }
}

/// The pieces of `s` between occurrences of `sep`, empty ones included.
pub open spec fn split(s: Seq<char>, sep: char) -> Seq<Seq<char>>
    decreases s.len(),
{
    let n = lead_len(s, other_than(sep));
    if n >= s.len() {
        seq![s]
    } else {
        seq![s.take(n as int)] + split(s.skip(n as int + 1), sep)
    }
}

/// The views of a sequence of strings.
pub open spec fn texts(v: Seq<String>) -> Seq<Seq<char>> {
    v.map_values(|s: String| s@)
}

/// The view of an optional string.
pub open spec fn opt_text(s: Option<String>) -> Option<Seq<char>> {
    match s {
        Some(t) => Some(t@),
        None => None,
    }
}

/// The view of an optional string slice.
pub open spec fn opt_str(s: Option<&str>) -> Option<Seq<char>> {
    match s {
        Some(t) => Some(t@),
        None => None,
    }
}

/// What `lead_len` counts: the characters before it satisfy `p`, the one at it does not.
pub proof fn lemma_lead_len(s: Seq<char>, p: spec_fn(char) -> bool)
    ensures
        lead_len(s, p) <= s.len(),
        forall|i: int| 0 <= i < lead_len(s, p) ==> p(#[trigger] s[i]),
        lead_len(s, p) < s.len() ==> !p(s[lead_len(s, p) as int]),
    decreases s.len(),
{
    if s.len() > 0 && p(s[0]) {
        let rest = s.drop_first();
        lemma_lead_len(rest, p);
        assert forall|i: int| 0 <= i < lead_len(s, p) implies p(#[trigger] s[i]) by {
            if i > 0 {
                assert(s[i] == rest[i - 1]);
            }
        }
        assert(lead_len(s, p) < s.len() ==> s[lead_len(s, p) as int] == rest[lead_len(
            rest,
            p,
        ) as int]);
    }
}

/// `lead_len` is the only count with that property.
pub proof fn lemma_lead_len_is(s: Seq<char>, p: spec_fn(char) -> bool, n: int)
    requires
        0 <= n <= s.len(),
        forall|i: int| 0 <= i < n ==> p(#[trigger] s[i]),
        n < s.len() ==> !p(s[n]),
    ensures
        lead_len(s, p) == n,
{
    lemma_lead_len(s, p);
    if lead_len(s, p) < n {
        assert(p(s[lead_len(s, p) as int]));
    }
}

/// What `trail_len` counts.
pub proof fn lemma_trail_len(s: Seq<char>, p: spec_fn(char) -> bool)
    ensures
        trail_len(s, p) <= s.len(),
        forall|i: int| s.len() - trail_len(s, p) <= i < s.len() ==> p(#[trigger] s[i]),
        trail_len(s, p) < s.len() ==> !p(s[s.len() - trail_len(s, p) - 1]),
    decreases s.len(),
{
    if s.len() > 0 && p(s.last()) {
        let rest = s.drop_last();
        lemma_trail_len(rest, p);
        assert forall|i: int| s.len() - trail_len(s, p) <= i < s.len() implies p(
            #[trigger] s[i],
        ) by {
            if i < rest.len() {
                assert(s[i] == rest[i]);
            }
        }
    }
}

/// `trail_len` is the only count with that property.
pub proof fn lemma_trail_len_is(s: Seq<char>, p: spec_fn(char) -> bool, n: int)
    requires
        0 <= n <= s.len(),
        forall|i: int| s.len() - n <= i < s.len() ==> p(#[trigger] s[i]),
        n < s.len() ==> !p(s[s.len() - n - 1]),
    ensures
        trail_len(s, p) == n,
{
    lemma_trail_len(s, p);
    if trail_len(s, p) < n {
        assert(p(s[s.len() - trail_len(s, p) - 1]));
    }
}

/// Whether `c` is white space.
pub fn white_space(c: char) -> (r: bool)
    ensures
        r == is_white_space(c),
{
    let n: u32 = c as u32;
    (0x9 <= n && n <= 0xd) || n == 0x20 || n == 0x85 || n == 0xa0 || n == 0x1680 || (0x2000 <= n
        && n <= 0x200a) || n == 0x2028 || n == 0x2029 || n == 0x202f || n == 0x205f || n == 0x3000
}

/// The characters of `s`.
pub fn chars_of(s: &str) -> (r: Vec<char>)
    ensures
        r@ == s@,
{
    let mut r: Vec<char> = Vec::new();
    for c in it: s.chars()
        invariant
            r@ == s@.take(it.index()),
            it.seq() == s@,
    {
        r.push(c);
    }
    r
}

/// Whether two texts are the same.
pub fn same_text(a: &str, b: &str) -> (r: bool)
    ensures
        r == (a@ == b@),
{
    let x: Vec<char> = chars_of(a);
    let y: Vec<char> = chars_of(b);
    if x.len() != y.len() {
        return false;
    }
    let mut i: usize = 0;
    while i < x.len()
        invariant
            i <= x.len(),
            x.len() == y.len(),
            x@ == a@,
            y@ == b@,
            x@.take(i as int) == y@.take(i as int),
        decreases x.len() - i,
    {
        if x[i] != y[i] {
            assert(a@[i as int] != b@[i as int]);
            return false;
        }
        proof {
            assert(x@.take(i + 1) =~= x@.take(i as int).push(x@[i as int]));
            assert(y@.take(i + 1) =~= y@.take(i as int).push(y@[i as int]));
        }
        i = i + 1;
    }
    proof {
        assert(x@.take(i as int) =~= x@);
        assert(y@.take(i as int) =~= y@);
    }
    true
}

/// What follows `prefix` in `s`, if `s` begins with it.
pub fn strip_prefix<'a>(s: &'a str, prefix: &str) -> (r: Option<&'a str>)
    ensures
        r is Some <==> has_prefix(s@, prefix@),
        r matches Some(t) ==> t@ == s@.skip(prefix@.len() as int),
{
    let n: usize = s.unicode_len();
    let k: usize = prefix.unicode_len();
    if k > n {
        return None;
    }
    if same_text(s.substring_char(0, k), prefix) {
        Some(s.substring_char(k, n))
    } else {
        None
    }
}

/// `s` without the white space at its start.
pub fn trim_start_of<'a>(s: &'a str) -> (r: &'a str)
    ensures
        r@ == trim_start(s@),
{
    let cs: Vec<char> = chars_of(s);
    let n: usize = cs.len();
    let mut i: usize = 0;
    while i < n && white_space(cs[i])
        invariant
            i <= n,
            n == cs@.len(),
            cs@ == s@,
            forall|j: int| 0 <= j < i ==> is_white_space(#[trigger] s@[j]),
        decreases n - i,
    {
        i = i + 1;
    }
    proof {
        lemma_lead_len_is(s@, blank(), i as int);
    }
    s.substring_char(i, n)
}

/// `s` without the white space at either end.
pub fn trim_text<'a>(s: &'a str) -> (r: &'a str)
    ensures
        r@ == trim(s@),
{
    let t: &'a str = trim_start_of(s);
    let cs: Vec<char> = chars_of(t);
    let n: usize = cs.len();
    let mut end: usize = n;
    while end > 0 && white_space(cs[end - 1])
        invariant
            end <= n,
            n == cs@.len(),
            cs@ == t@,
            forall|j: int| end <= j < n ==> is_white_space(#[trigger] t@[j]),
        decreases end,
    {
        end = end - 1;
    }
    proof {
        lemma_trail_len_is(t@, blank(), n - end);
    }
    t.substring_char(0, end)
}

/// The first word of `s`, if there is one.
pub fn first_word_of<'a>(s: &'a str) -> (r: Option<&'a str>)
    ensures
        r is Some <==> first_word(s@) is Some,
        r matches Some(w) ==> first_word(s@) == Some(w@),
{
    let t: &'a str = trim_start_of(s);
    let cs: Vec<char> = chars_of(t);
    let n: usize = cs.len();
    if n == 0 {
        return None;
    }
    let mut i: usize = 0;
    while i < n && !white_space(cs[i])
        invariant
            i <= n,
            n == cs@.len(),
            cs@ == t@,
            forall|j: int| 0 <= j < i ==> !is_white_space(#[trigger] t@[j]),
        decreases n - i,
    {
        i = i + 1;
    }
    proof {
        lemma_lead_len_is(t@, ink(), i as int);
    }
    Some(t.substring_char(0, i))
}

/// A text begins with another just where it is that text with something behind it, if only
/// nothing.
pub proof fn prefix_stands_in_front(s: Seq<char>, prefix: Seq<char>)
    ensures
        has_prefix(s, prefix) <==> exists|rest: Seq<char>| s == #[trigger] (prefix + rest),
{
    if has_prefix(s, prefix) {
        assert(s =~= prefix + s.skip(prefix.len() as int));
    }
    if exists|rest: Seq<char>| s == #[trigger] (prefix + rest) {
        let rest = choose|rest: Seq<char>| s == #[trigger] (prefix + rest);
        assert((prefix + rest).take(prefix.len() as int) =~= prefix);
    }
}

/// What is taken off the start of a text is white space, and all there is of it.
pub proof fn start_is_trimmed(s: Seq<char>)
    ensures
        exists|a: Seq<char>|
            {
                &&& s == #[trigger] (a + trim_start(s))
                &&& forall|i: int| 0 <= i < a.len() ==> is_white_space(#[trigger] a[i])
            },
        trim_start(s).len() > 0 ==> !is_white_space(trim_start(s)[0]),
{
    let n = lead_len(s, blank()) as int;
    lemma_lead_len(s, blank());
    let a = s.take(n);
    assert(s =~= a + trim_start(s));
    assert forall|i: int| 0 <= i < a.len() implies is_white_space(#[trigger] a[i]) by {
        assert(blank()(s[i]));
    }
    if n < s.len() {
        assert(!blank()(s[n]));
        assert(trim_start(s)[0] == s[n]);
    }
}

/// What is taken off the end of a text is white space, and all there is of it.
pub proof fn end_is_trimmed(s: Seq<char>)
    ensures
        exists|b: Seq<char>|
            {
                &&& s == #[trigger] (trim_end(s) + b)
                &&& forall|i: int| 0 <= i < b.len() ==> is_white_space(#[trigger] b[i])
            },
        trim_end(s).len() > 0 ==> !is_white_space(trim_end(s).last()),
{
    let n = s.len() - trail_len(s, blank());
    lemma_trail_len(s, blank());
    let b = s.skip(n);
    assert(s =~= trim_end(s) + b);
    assert forall|i: int| 0 <= i < b.len() implies is_white_space(#[trigger] b[i]) by {
        assert(blank()(s[n + i]));
    }
    if n > 0 {
        assert(!blank()(s[n - 1]));
        assert(trim_end(s).last() == s[n - 1]);
    }
}

/// A text is white space, then what trimming leaves of it, then white space; and what is left has
/// no white space at its ends.
pub proof fn trimming_takes_off_white_space_alone(s: Seq<char>)
    ensures
        exists|a: Seq<char>, b: Seq<char>|
            {
                &&& s == #[trigger] (a + trim(s) + b)
                &&& forall|i: int| 0 <= i < a.len() ==> is_white_space(#[trigger] a[i])
                &&& forall|i: int| 0 <= i < b.len() ==> is_white_space(#[trigger] b[i])
            },
        trim(s).len() > 0 ==> !is_white_space(trim(s)[0]) && !is_white_space(trim(s).last()),
{
    start_is_trimmed(s);
    let t = trim_start(s);
    end_is_trimmed(t);
    let a = choose|a: Seq<char>|
        {
            &&& s == #[trigger] (a + t)
            &&& forall|i: int| 0 <= i < a.len() ==> is_white_space(#[trigger] a[i])
        };
    let b = choose|b: Seq<char>|
        {
            &&& t == #[trigger] (trim_end(t) + b)
            &&& forall|i: int| 0 <= i < b.len() ==> is_white_space(#[trigger] b[i])
        };
    assert(s =~= a + trim(s) + b);
    if trim(s).len() > 0 {
        assert(trim(s)[0] == t[0]);
    }
}

/// The first word of a text stands after white space alone, holds none itself, and goes on until
/// the next white space or the end; a text without a word is white space alone.
pub proof fn first_word_is_the_first_word(s: Seq<char>)
    ensures
        first_word(s) is None <==> forall|i: int|
            0 <= i < s.len() ==> is_white_space(#[trigger] s[i]),
        first_word(s) matches Some(w) ==> {
            &&& w.len() > 0
            &&& forall|i: int| 0 <= i < w.len() ==> !is_white_space(#[trigger] w[i])
            &&& exists|a: Seq<char>, rest: Seq<char>|
                {
                    &&& s == #[trigger] (a + w + rest)
                    &&& forall|i: int| 0 <= i < a.len() ==> is_white_space(#[trigger] a[i])
                    &&& rest.len() > 0 ==> is_white_space(rest[0])
                }
        },
{
    start_is_trimmed(s);
    let t = trim_start(s);
    let a = choose|a: Seq<char>|
        {
            &&& s == #[trigger] (a + t)
            &&& forall|i: int| 0 <= i < a.len() ==> is_white_space(#[trigger] a[i])
        };
    if t.len() == 0 {
        assert(s =~= a);
    } else {
        assert(s[a.len() as int] == t[0]);
        let n = lead_len(t, ink()) as int;
        lemma_lead_len(t, ink());
        let w = t.take(n);
        let rest = t.skip(n);
        assert forall|i: int| 0 <= i < w.len() implies !is_white_space(#[trigger] w[i]) by {
            assert(ink()(t[i]));
        }
        if n == 0 {
            assert(!ink()(t[0]));
        }
        if rest.len() > 0 {
            assert(!ink()(t[n]));
            assert(rest[0] == t[n]);
        }
        assert(s =~= a + w + rest);
    }
}

/// There is only one way to be the first word.
pub proof fn first_word_is_told(a: Seq<char>, w: Seq<char>, rest: Seq<char>)
    requires
        forall|i: int| 0 <= i < a.len() ==> is_white_space(#[trigger] a[i]),
        w.len() > 0,
        forall|i: int| 0 <= i < w.len() ==> !is_white_space(#[trigger] w[i]),
        rest.len() > 0 ==> is_white_space(rest[0]),
    ensures
        first_word(a + w + rest) == Some(w),
{
    let s = a + w + rest;
    assert forall|i: int| 0 <= i < a.len() implies blank()(#[trigger] s[i]) by {
        assert(s[i] == a[i]);
    }
    assert(s[a.len() as int] == w[0]);
    lemma_lead_len_is(s, blank(), a.len() as int);
    let t = s.skip(a.len() as int);
    assert(t =~= w + rest);
    assert forall|i: int| 0 <= i < w.len() implies ink()(#[trigger] t[i]) by {
        assert(t[i] == w[i]);
    }
    if rest.len() > 0 {
        assert(t[w.len() as int] == rest[0]);
    }
    lemma_lead_len_is(t, ink(), w.len() as int);
    assert(t.take(w.len() as int) =~= w);
}

/// The views of a sequence of strings are the texts of all of them, in their order.
pub proof fn texts_show_every_string(v: Seq<String>)
    ensures
        texts(v).len() == v.len(),
        forall|i: int| 0 <= i < v.len() ==> #[trigger] texts(v)[i] == v[i]@,
{
}

/// The view of an optional string shows whether there is one, and its text.
pub proof fn optional_texts_show_the_text(s: Option<String>, t: Option<&str>)
    ensures
        opt_text(s) is Some <==> s is Some,
        s matches Some(x) ==> opt_text(s) == Some(x@),
        opt_str(t) is Some <==> t is Some,
        t matches Some(x) ==> opt_str(t) == Some(x@),
{
}

/// The white space of Unicode, character by character.
pub proof fn white_space_is_as_in_unicode(c: char)
    ensures
        is_white_space(c) <==> seq![
            0x9u32, 0xa, 0xb, 0xc, 0xd, 0x20, 0x85, 0xa0, 0x1680, 0x2000, 0x2001, 0x2002, 0x2003,
            0x2004, 0x2005, 0x2006, 0x2007, 0x2008, 0x2009, 0x200a, 0x2028, 0x2029, 0x202f,
            0x205f, 0x3000,
        ].contains(c as u32),
{
    let all = seq![
        0x9u32, 0xa, 0xb, 0xc, 0xd, 0x20, 0x85, 0xa0, 0x1680, 0x2000, 0x2001, 0x2002, 0x2003,
        0x2004, 0x2005, 0x2006, 0x2007, 0x2008, 0x2009, 0x200a, 0x2028, 0x2029, 0x202f, 0x205f,
        0x3000,
    ];
    let n = c as u32;
    if is_white_space(c) {
        let i: int = if n <= 0xd {
            n - 0x9
        } else if n == 0x20 {
            5
        } else if n == 0x85 {
            6
        } else if n == 0xa0 {
            7
        } else if n == 0x1680 {
            8
        } else if n <= 0x200a {
            n - 0x2000 + 9
        } else if n == 0x2028 {
            20
        } else if n == 0x2029 {
            21
        } else if n == 0x202f {
            22
        } else if n == 0x205f {
            23
        } else {
            24
        };
        assert(all[i] == n);
    }
}

} // verus!
