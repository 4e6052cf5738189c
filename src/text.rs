use vstd::prelude::*;

verus! {

/// Relies on `String::push`: the character is appended at the end.
#[verifier::external_body]
pub(crate) fn push_char(s: &mut String, c: char)
    ensures
        final(s)@ == old(s)@.push(c),
{
    s.push(c)
}

/// `s` with every occurrence of the character `from` replaced by `to`.
pub open spec fn replaced(s: Seq<char>, from: char, to: Seq<char>) -> Seq<char>
    decreases s.len(),
{
    if s.len() == 0 {
        Seq::empty()
    } else {
        let head = replaced(s.drop_last(), from, to);
        if s.last() == from {
            head + to
        } else {
            head.push(s.last())
        }
    }
}

/// Replaces each occurrence of `from` in `source` by `to`, scanning left to right.
pub fn replace(source: &str, from: char, to: &str) -> (r: String)
    ensures
        r@ == replaced(source@, from, to@),
{
    let mut r = String::new();
    let ghost mut done: int = 0;
    for c in it: source.chars()
        invariant
            it.seq() == source@,
            done == it.index(),
            r@ == replaced(source@.take(done), from, to@),
    {
        proof {
            assert(source@.take(done + 1).drop_last() =~= source@.take(done));
            done = done + 1;
        }
        if c == from {
            r.append(to);
        } else {
            push_char(&mut r, c);
        }
    }
    assert(source@.take(done) =~= source@);
    r
}

} // verus!

verus! {

/// The character of the decimal digit `d` (`d < 10`).
pub open spec fn digit_char(d: nat) -> char {
    ((48 + d) as u8) as char
}

/// The decimal rendering of `n`, most significant digit first, without leading zeros.
pub open spec fn decimal(n: nat) -> Seq<char>
    decreases n,
{
    if n < 10 {
        seq![digit_char(n)]
    } else {
        decimal(n / 10).push(digit_char(n % 10))
    }
}

/// Appends the decimal rendering of `n` to `out`.
pub fn push_decimal(out: &mut String, n: u64)
    ensures
        final(out)@ == old(out)@ + decimal(n as nat),
    decreases n,
{
    if n >= 10 {
        push_decimal(out, n / 10);
    }
    let d: u8 = (n % 10) as u8;
    push_char(out, (48u8 + d) as char);
}

/// The decimal rendering of `n` as a new string.
pub fn to_decimal(n: u64) -> (r: String)
    ensures
        r@ == decimal(n as nat),
{
    let mut r = String::new();
    push_decimal(&mut r, n);
    r
}

/// Whether `sub` occurs in `s` as a contiguous run.
pub open spec fn occurs_in(sub: Seq<char>, s: Seq<char>) -> bool {
    exists|i: int| 0 <= i && i + sub.len() <= s.len() && #[trigger] s.subrange(i, i + sub.len()) == sub
}

/// The characters of `s`, one per element.
pub fn chars_of(s: &str) -> (r: Vec<char>)
    ensures
        r@ == s@,
{
    let mut r: Vec<char> = Vec::new();
    let ghost mut done: int = 0;
    for c in it: s.chars()
        invariant
            it.seq() == s@,
            done == it.index(),
            r@ == s@.take(done),
    {
        proof {
            assert(s@.take(done + 1) =~= s@.take(done).push(c));
            done = done + 1;
        }
        r.push(c);
    }
    assert(s@.take(done) =~= s@);
    r
}

/// Whether `sub[..]` equals `s[at..at + sub.len()]`.
fn matches_at(s: &Vec<char>, sub: &Vec<char>, at: usize) -> (r: bool)
    requires
        at + sub@.len() <= s@.len(),
    ensures
        r == (s@.subrange(at as int, at + sub@.len()) == sub@),
{
    let n = s.len();
    let mut k: usize = 0;
    while k < sub.len()
        invariant
            n == s@.len(),
            at + sub@.len() <= s@.len(),
            k <= sub@.len(),
            forall|j: int| 0 <= j < k ==> s@[at + j] == sub@[j],
        decreases sub@.len() - k,
    {
        if s[at + k] != sub[k] {
            assert(s@.subrange(at as int, at + sub@.len())[k as int] != sub@[k as int]);
            return false;
        }
        k = k + 1;
    }
    assert(s@.subrange(at as int, at + sub@.len()) =~= sub@);
    true
}

/// Whether `needle` occurs in `haystack` (plain substring search, no notion of path components).
pub fn contains_text(haystack: &str, needle: &str) -> (r: bool)
    ensures
        r == occurs_in(needle@, haystack@),
{
    let s = chars_of(haystack);
    let sub = chars_of(needle);
    if sub.len() == 0 {
        assert(haystack@.subrange(0int, 0int + needle@.len()) =~= needle@);
        return true;
    }
    if sub.len() > s.len() {
        return false;
    }
    let n = s.len();
    let last: usize = n - sub.len();
    let mut i: usize = 0;
    while i <= last
        invariant
            n == s@.len(),
            sub@.len() > 0,
            s@ == haystack@,
            sub@ == needle@,
            last == s@.len() - sub@.len(),
            i <= last + 1,
            forall|j: int| 0 <= j < i ==> #[trigger] s@.subrange(j, j + sub@.len()) != sub@,
        decreases last + 1 - i,
    {
        if matches_at(&s, &sub, i) {
            return true;
        }
        i = i + 1;
    }
    assert forall|j: int| 0 <= j && j + needle@.len() <= haystack@.len() implies
        #[trigger] haystack@.subrange(j, j + needle@.len()) != needle@ by {
        assert(j < i);
    }
    false
}

} // verus!

verus! {

/// `path` ending in a slash: itself when it already does, else with one appended.
pub open spec fn with_slash(path: Seq<char>) -> Seq<char> {
    if path.len() > 0 && path.last() == '/' {
        path
    } else {
        path.push('/')
    }
}

/// Makes `path` end in a slash, then turns every backslash into a slash.
pub fn check_slash(path: &mut String)
    ensures
        final(path)@ == replaced(with_slash(old(path)@), '\\', seq!['/']),
{
    let chars = chars_of(path.as_str());
    let n = chars.len();
    if n == 0 || chars[n - 1] != '/' {
        push_char(path, '/');
    }
    let slash = "/";
    proof {
        reveal_strlit("/");
        assert(slash@ =~= seq!['/']);
    }
    *path = replace(path.as_str(), '\\', slash);
}

/// Whether a file name looks like C or C++ source: it contains `.cpp` or `.c`.
pub fn is_code_file(name: &str) -> (r: bool)
    ensures
        r == (occurs_in(seq!['.', 'c', 'p', 'p'], name@) || occurs_in(seq!['.', 'c'], name@)),
{
    let cpp = ".cpp";
    let c = ".c";
    proof {
        reveal_strlit(".cpp");
        reveal_strlit(".c");
        assert(cpp@ =~= seq!['.', 'c', 'p', 'p']);
        assert(c@ =~= seq!['.', 'c']);
    }
    contains_text(name, cpp) || contains_text(name, c)
}

} // verus!
