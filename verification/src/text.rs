//! Small text helpers shared by the other modules.

use vstd::prelude::*;
use vstd::string::StringExecFns;

verus! {

/// The characters of `s`, in order.
pub fn chars_of(s: &str) -> (chars: Vec<char>)
    ensures
        chars@ == s@,
{
    let mut chars: Vec<char> = Vec::new();
    for c in it: s.chars()
        invariant
            it.seq() == s@,
            chars@ == it.seq().take(it.index() as int),
    {
        chars.push(c);
    }
    chars
}

/// Appends one character to `s`.
///
/// Trusted: wraps `String::push` of the standard library, which is
/// documented to append the given character to the end of the string.
#[verifier::external_body]
pub(crate) fn push_char(s: &mut String, c: char)
    ensures
        final(s)@ == old(s)@.push(c),
{
    s.push(c)
}

/// The string made of `chars`, in order.
pub fn text_of(chars: &[char]) -> (s: String)
    ensures
        s@ == chars@,
{
    let mut s = String::new();
    let mut i: usize = 0;
    while i < chars.len()
        invariant
            i <= chars.len(),
            s@ == chars@.take(i as int),
        decreases chars.len() - i,
    {
        push_char(&mut s, chars[i]);
        i += 1;
    }
    s
}

/// Whether the characters of `name` begin with `prefix`.
pub fn has_prefix(name: &str, prefix: &[char]) -> (found: bool)
    ensures
        found == prefix@.is_prefix_of(name@),
{
    let mut matched: usize = 0;
    let mut agree = true;
    for c in it: name.chars()
        invariant
            it.seq() == name@,
            matched <= prefix.len(),
            matched <= it.index(),
            matched < prefix.len() ==> matched == it.index(),
            agree == (prefix@.take(matched as int) =~= name@.take(matched as int)),
    {
        if matched < prefix.len() {
            if c != prefix[matched] {
                agree = false;
                assert(prefix@.take(matched + 1)[matched as int] != name@.take(
                    matched + 1,
                )[matched as int]);
            }
            matched += 1;
        }
    }
    agree && matched == prefix.len()
}

/// The string that holds the single character `c`.
pub fn single(c: char) -> (s: String)
    ensures
        s@ == seq![c],
{
    let mut s = String::new();
    push_char(&mut s, c);
    s
}

/// `s` followed by the character `c`.
pub fn with_char(s: &str, c: char) -> (longer: String)
    ensures
        longer@ == s@.push(c),
{
    let mut longer = s.to_owned();
    push_char(&mut longer, c);
    longer
}

/// `s` without its last character; `s` itself where it is empty.
pub fn without_last(s: &str) -> (shorter: String)
    ensures
        shorter@ == if s@.len() > 0 {
            s@.drop_last()
        } else {
            s@
        },
{
    let n = s.unicode_len();
    if n == 0 {
        s.to_owned()
    } else {
        s.substring_char(0, n - 1).to_owned()
    }
}

/// The index of the first `c` in `s`, where there is one.
pub open spec fn first_index_of(s: Seq<char>, c: char) -> Option<int> {
    if s.contains(c) {
        Some(choose|i: int| is_first_index(s, c, i))
    } else {
        None
    }
}

/// `i` is the index of the first `c` in `s`.
pub open spec fn is_first_index(s: Seq<char>, c: char, i: int) -> bool {
    &&& 0 <= i < s.len()
    &&& s[i] == c
    &&& forall|j: int| 0 <= j < i ==> s[j] != c
}

/// Where `c` occurs in `s`, its first index is the one and only index that
/// [`is_first_index`] accepts.
pub proof fn lemma_first_index(s: Seq<char>, c: char, i: int)
    requires
        is_first_index(s, c, i),
    ensures
        first_index_of(s, c) == Some(i),
{
}

/// The index, counted in characters, of the first `c` in `s`.
pub fn find_char(s: &str, c: char) -> (found: Option<usize>)
    ensures
        match found {
            Some(i) => first_index_of(s@, c) == Some(i as int),
            None => first_index_of(s@, c) is None,
        },
{
    let n = s.unicode_len();
    let mut found: Option<usize> = None;
    let mut at: usize = 0;
    for x in it: s.chars()
        invariant
            it.seq() == s@,
            n == s@.len(),
            at == it.index(),
            match found {
                Some(i) => is_first_index(s@, c, i as int),
                None => forall|j: int| 0 <= j < it.index() ==> s@[j] != c,
            },
    {
        if found.is_none() && x == c {
            found = Some(at);
        }
        at += 1;
    }
    proof {
        if let Some(i) = found {
            lemma_first_index(s@, c, i as int);
        }
    }
    found
}

/// The character for a single decimal digit.
pub open spec fn digit_char(d: nat) -> char {
    if d == 0 {
        '0'
    } else if d == 1 {
        '1'
    } else if d == 2 {
        '2'
    } else if d == 3 {
        '3'
    } else if d == 4 {
        '4'
    } else if d == 5 {
        '5'
    } else if d == 6 {
        '6'
    } else if d == 7 {
        '7'
    } else if d == 8 {
        '8'
    } else {
        '9'
    }
}

/// The decimal digits of `n`, most significant first, without leading
/// zeros.
pub open spec fn decimal(n: nat) -> Seq<char>
    decreases n,
{
    if n < 10 {
        seq![digit_char(n)]
    } else {
        decimal(n / 10).push(digit_char(n % 10))
    }
}

/// The character for the decimal digit `d`.
fn digit(d: u8) -> (c: char)
    requires
        d < 10,
    ensures
        c == digit_char(d as nat),
{
    match d {
        0 => '0',
        1 => '1',
        2 => '2',
        3 => '3',
        4 => '4',
        5 => '5',
        6 => '6',
        7 => '7',
        8 => '8',
        _ => '9',
    }
}

/// `n` written in decimal.
pub fn decimal_text(n: u128) -> (text: String)
    ensures
        text@ == decimal(n as nat),
{
    let mut digits: Vec<char> = Vec::new();
    let mut rest = n;
    while rest >= 10
        invariant
            decimal(n as nat) == decimal(rest as nat) + digits@.reverse(),
        decreases rest,
    {
        let last = digit((rest % 10) as u8);
        digits.push(last);
        rest = rest / 10;
    }
    let mut text = single(digit(rest as u8));
    let mut i = digits.len();
    while i > 0
        invariant
            i <= digits.len(),
            text@ + digits@.take(i as int).reverse() == decimal(n as nat),
        decreases i,
    {
        i -= 1;
        push_char(&mut text, digits[i]);
    }
    text
}

/// The parts put one after the other with `separator` between each two.
pub open spec fn joined(parts: Seq<Seq<char>>, separator: Seq<char>) -> Seq<char>
    decreases parts.len(),
{
    if parts.len() == 0 {
        Seq::empty()
    } else if parts.len() == 1 {
        parts[0]
    } else {
        joined(parts.drop_last(), separator) + separator + parts.last()
    }
}

/// The parts put one after the other with `separator` between each two.
pub fn join(parts: &Vec<String>, separator: &str) -> (text: String)
    ensures
        text@ == joined(parts.deep_view(), separator@),
{
    let mut text = String::new();
    let mut i: usize = 0;
    while i < parts.len()
        invariant
            i <= parts.len(),
            text@ == joined(parts.deep_view().take(i as int), separator@),
        decreases parts.len() - i,
    {
        proof {
            let seen = parts.deep_view().take(i + 1);
            assert(seen.drop_last() =~= parts.deep_view().take(i as int));
        }
        if i > 0 {
            text.append(separator);
        }
        text.append(parts[i].as_str());
        i += 1;
    }
    assert(parts.deep_view().take(parts.len() as int) =~= parts.deep_view());
    text
}

/// Whether the two strings hold the same characters.
pub fn same_text(a: &str, b: &str) -> (same: bool)
    ensures
        same == (a@ == b@),
{
    let x = chars_of(a);
    let y = chars_of(b);
    if x.len() != y.len() {
        return false;
    }
    let mut i: usize = 0;
    while i < x.len()
        invariant
            i <= x.len(),
            x.len() == y.len(),
            x@ == a@,
            y@ == b@,
            x@.take(i as int) == y@.take(i as int),
        decreases x.len() - i,
    {
        if x[i] != y[i] {
            return false;
        }
        i += 1;
    }
    assert(x@.take(x.len() as int) =~= x@);
    assert(y@.take(y.len() as int) =~= y@);
    true
}

/// `a` followed by `b`.
pub fn chain(a: &str, b: &str) -> (text: String)
    ensures
        text@ == a@ + b@,
{
    let mut text = a.to_owned();
    text.append(b);
    text
}

/// `text` stands in `outer`: some characters, then `text`, then some more.
pub open spec fn frames(outer: Seq<char>, text: Seq<char>) -> bool {
    exists|before: Seq<char>, after: Seq<char>| outer == #[trigger] (before + text + after)
}

/// `needle` stands in `hay` from the index `at` on.
pub open spec fn occurs_at(hay: Seq<char>, needle: Seq<char>, at: int) -> bool {
    &&& 0 <= at
    &&& at + needle.len() <= hay.len()
    &&& hay.subrange(at, at + needle.len()) == needle
}

/// A text stands in another exactly when it occurs there at some index.
pub proof fn lemma_frames_is_occurrence(outer: Seq<char>, text: Seq<char>)
    ensures
        frames(outer, text) <==> exists|at: int| occurs_at(outer, text, at),
{
    if frames(outer, text) {
        let (before, after) = choose|before: Seq<char>, after: Seq<char>|
            outer == #[trigger] (before + text + after);
        let at = before.len() as int;
        assert(outer.subrange(at, at + text.len()) =~= text);
        assert(occurs_at(outer, text, at));
    }
    if exists|at: int| occurs_at(outer, text, at) {
        let at = choose|at: int| occurs_at(outer, text, at);
        let before = outer.take(at);
        let after = outer.skip(at + text.len());
        assert(outer =~= before + text + after);
    }
}

/// Whether `needle` stands in `hay` from the index `at` on.
fn matches_at(hay: &[char], needle: &[char], at: usize) -> (same: bool)
    requires
        at + needle@.len() <= hay@.len(),
    ensures
        same == occurs_at(hay@, needle@, at as int),
{
    let mut k: usize = 0;
    let length = hay.len();
    while k < needle.len()
        invariant
            k <= needle@.len(),
            at + needle@.len() <= hay@.len(),
            hay@.len() == length,
            forall|j: int| 0 <= j < k ==> hay@[at + j] == needle@[j],
        decreases needle@.len() - k,
    {
        if hay[at + k] != needle[k] {
            assert(hay@.subrange(at as int, at + needle@.len())[k as int] != needle@[k as int]);
            return false;
        }
        k += 1;
    }
    assert(hay@.subrange(at as int, at + needle@.len()) =~= needle@);
    true
}

/// Whether `text` stands somewhere in `outer`.
pub fn holds_text(outer: &str, text: &str) -> (found: bool)
    ensures
        found == frames(outer@, text@),
{
    let hay = chars_of(outer);
    let needle = chars_of(text);
    proof {
        lemma_frames_is_occurrence(outer@, text@);
    }
    if needle.len() > hay.len() {
        return false;
    }
    let last = hay.len() - needle.len();
    let mut at: usize = 0;
    loop
        invariant
            at <= last,
            last == hay@.len() - needle@.len(),
            hay@ == outer@,
            needle@ == text@,
            frames(outer@, text@) <==> exists|k: int| occurs_at(outer@, text@, k),
            forall|k: int| 0 <= k < at ==> !occurs_at(hay@, needle@, k),
        decreases last - at,
    {
        if matches_at(hay.as_slice(), needle.as_slice(), at) {
            return true;
        }
        if at == last {
            return false;
        }
        at += 1;
    }
}

} // verus!
