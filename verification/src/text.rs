//! Searching and splitting text.
use vstd::prelude::*;

verus! {

/// `needle` stands in `s` at `at`.
pub open spec fn stands_at<T>(s: Seq<T>, needle: Seq<T>, at: int) -> bool {
    0 <= at && at + needle.len() <= s.len() && s.subrange(at, at + needle.len()) == needle
}

/// `needle` stands somewhere in `s`.
pub open spec fn holds<T>(s: Seq<T>, needle: Seq<T>) -> bool {
    exists|at: int| #[trigger] stands_at(s, needle, at)
}

/// What follows the last `c`; the whole text where there is none.
pub open spec fn after_last(s: Seq<char>, c: char) -> Seq<char>
    decreases s.len(),
{
    if s.len() == 0 || s.last() == c {
        Seq::empty()
    } else {
        after_last(s.drop_last(), c).push(s.last())
    }
}

/// The pieces between the `c`s; one piece more than there are of them.
pub open spec fn pieces(s: Seq<char>, c: char) -> Seq<Seq<char>>
    decreases s.len(),
{
    if s.len() == 0 {
        seq![Seq::empty()]
    } else if s.last() == c {
        pieces(s.drop_last(), c).push(Seq::empty())
    } else {
        let before = pieces(s.drop_last(), c);
        before.drop_last().push(before.last().push(s.last()))
    }
}

/// The characters of a text.
pub fn chars_of(s: &str) -> (chars: Vec<char>)
    ensures
        chars@ == s@,
{
    let mut chars: Vec<char> = Vec::new();
    for c in it: s.chars()
        invariant
            chars@ == it.seq().take(it.index() as int),
            it.seq() == s@,
    {
        chars.push(c);
    }
    chars
}

/// Whether `needle` stands in `s` at `at`.
fn matches_at(s: &Vec<char>, needle: &Vec<char>, at: usize) -> (r: bool)
    requires
        at + needle@.len() <= s@.len(),
    ensures
        r == stands_at(s@, needle@, at as int),
{
    let mut k: usize = 0;
    let len: usize = s.len();
    while k < needle.len()
        invariant
            k <= needle@.len(),
            at + needle@.len() <= s@.len() == len,
            forall|j: int| 0 <= j < k ==> s@[at + j] == #[trigger] needle@[j],
        decreases needle@.len() - k,
    {
        if s[at + k] != needle[k] {
            assert(s@.subrange(at as int, at + needle@.len())[k as int] != needle@[k as int]);
            return false;
        }
        k += 1;
    }
    assert(s@.subrange(at as int, at + needle@.len()) =~= needle@);
    true
}

/// Whether `needle` stands somewhere in `s`.
pub fn contains(s: &str, needle: &str) -> (r: bool)
    ensures
        r == holds(s@, needle@),
{
    let text: Vec<char> = chars_of(s);
    let word: Vec<char> = chars_of(needle);
    if word.len() > text.len() {
        return false;
    }
    let last: usize = text.len() - word.len();
    let mut at: usize = 0;
    loop
        invariant
            text@ == s@,
            word@ == needle@,
            at <= last == text@.len() - word@.len(),
            forall|j: int| 0 <= j < at ==> !stands_at(text@, word@, j),
        decreases last - at,
    {
        if matches_at(&text, &word, at) {
            return true;
        }
        if at == last {
            assert forall|j: int| !stands_at(text@, word@, j) by {
                assert(0 <= j && j + word@.len() <= text@.len() ==> j <= last);
            }
            return false;
        }
        at += 1;
    }
}

/// Whether `s` starts with `prefix`.
pub fn starts_with(s: &str, prefix: &str) -> (r: bool)
    ensures
        r == stands_at(s@, prefix@, 0),
{
    let s: Vec<char> = chars_of(s);
    let prefix: Vec<char> = chars_of(prefix);
    if prefix.len() > s.len() {
        return false;
    }
    matches_at(&s, &prefix, 0)
}

/// Whether two texts are the same.
pub fn same(a: &str, b: &str) -> (r: bool)
    ensures
        r == (a@ == b@),
{
    let a: Vec<char> = chars_of(a);
    let b: Vec<char> = chars_of(b);
    if a.len() != b.len() {
        return false;
    }
    let r = matches_at(&a, &b, 0);
    assert(a@.subrange(0, a@.len() as int) =~= a@);
    r
}

/// What follows the last `c` is the end of the text from there on.
proof fn after_last_is_suffix(s: Seq<char>, c: char, from: int)
    requires
        0 <= from <= s.len(),
        forall|j: int| from <= j < s.len() ==> s[j] != c,
        from == 0 || s[from - 1] == c,
    ensures
        after_last(s, c) == s.subrange(from, s.len() as int),
    decreases s.len() - from,
{
    if from == s.len() {
        assert(s.subrange(from, s.len() as int) =~= Seq::empty());
    } else {
        after_last_is_suffix(s.drop_last(), c, from);
        assert(s.subrange(from, s.len() as int) =~= s.drop_last().subrange(
            from,
            s.len() - 1,
        ).push(s.last()));
    }
}

/// What follows the last `c`; the whole text where there is none.
pub fn text_after_last(s: &str, c: char) -> (rest: &str)
    ensures
        rest@ == after_last(s@, c),
{
    let chars: Vec<char> = chars_of(s);
    let mut from: usize = chars.len();
    while from > 0 && chars[from - 1] != c
        invariant
            from <= chars@.len(),
            forall|j: int| from <= j < chars@.len() ==> chars@[j] != c,
        decreases from,
    {
        from -= 1;
    }
    proof {
        after_last_is_suffix(chars@, c, from as int);
    }
    s.substring_char(from, chars.len())
}

/// The pieces between the `c`s.
pub fn split(s: &str, c: char) -> (parts: Vec<String>)
    ensures
        parts@.len() == pieces(s@, c).len(),
        forall|k: int| 0 <= k < parts@.len() ==> (#[trigger] parts@[k])@ == pieces(s@, c)[k],
{
    let chars: Vec<char> = chars_of(s);
    let mut parts: Vec<String> = Vec::new();
    let mut from: usize = 0;
    let mut i: usize = 0;
    assert(chars@.take(0) =~= Seq::empty());
    assert(chars@.subrange(0, 0) =~= Seq::empty());
    while i < chars.len()
        invariant
            from <= i <= chars@.len(),
            chars@ == s@,
            parts@.len() + 1 == pieces(chars@.take(i as int), c).len(),
            forall|k: int|
                0 <= k < parts@.len() ==> (#[trigger] parts@[k])@ == pieces(
                    chars@.take(i as int),
                    c,
                )[k],
            pieces(chars@.take(i as int), c).last() == chars@.subrange(from as int, i as int),
        decreases chars@.len() - i,
    {
        let ghost before = chars@.take(i as int);
        let ghost after = chars@.take(i + 1);
        assert(after.drop_last() =~= before);
        assert(after.last() == chars@[i as int]);
        if chars[i] == c {
            parts.push(s.substring_char(from, i).to_owned());
            from = i + 1;
            assert(chars@.subrange(from as int, i + 1) =~= Seq::empty());
        } else {
            assert(chars@.subrange(from as int, i + 1) =~= chars@.subrange(
                from as int,
                i as int,
            ).push(chars@[i as int]));
        }
        i += 1;
    }
    assert(chars@.take(i as int) =~= s@);
    parts.push(s.substring_char(from, i).to_owned());
    parts
}

} // verus!
