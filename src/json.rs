use vstd::prelude::*;
use crate::text::{push_char, replace, replaced};

verus! {

/// Width of one indentation unit.
pub const INDENT: usize = 2;

/// A run of `n` fill characters.
pub open spec fn spaces(n: nat) -> Seq<char> {
    Seq::new(n, |i: int| ' ')
}

/// The indentation written at the start of each line.
pub struct Prefix {
    sz: usize,
    buf: String,
}

impl Prefix {
    /// The current width of the indentation.
    pub closed spec fn width(&self) -> nat {
        self.sz as nat
    }

    pub closed spec fn wf(&self) -> bool {
        self.buf@ == spaces(self.sz as nat)
    }

    /// The indentation text.
    pub open spec fn text(&self) -> Seq<char> {
        spaces(self.width())
    }

    /// No indentation.
    pub fn new() -> (r: Prefix)
        ensures
            r.wf(),
            r.width() == 0,
    {
        let r = Prefix { sz: 0, buf: String::new() };
        assert(r.buf@ =~= spaces(0));
        r
    }

    pub fn width_exec(&self) -> (r: usize)
        ensures
            r == self.width(),
    {
        self.sz
    }

    pub fn as_str(&self) -> (r: &str)
        requires
            self.wf(),
        ensures
            r@ == self.text(),
    {
        self.buf.as_str()
    }

    /// One indentation unit deeper.
    pub fn expand(&mut self)
        requires
            old(self).wf(),
            old(self).width() + INDENT <= usize::MAX,
        ensures
            final(self).wf(),
            final(self).width() == old(self).width() + INDENT,
    {
        self.sz = self.sz + INDENT;
        let mut k: usize = 0;
        while k < INDENT
            invariant
                k <= INDENT,
                self.sz == old(self).sz + INDENT,
                self.buf@ == spaces((old(self).sz + k) as nat),
            decreases INDENT - k,
        {
            push_char(&mut self.buf, ' ');
            k = k + 1;
            assert(self.buf@ =~= spaces((old(self).sz + k) as nat));
        }
    }

    /// One indentation unit shallower; there must be one to remove.
    pub fn shrink(&mut self)
        requires
            old(self).wf(),
            old(self).width() >= INDENT,
        ensures
            final(self).wf(),
            final(self).width() == old(self).width() - INDENT,
    {
        self.sz = self.sz - INDENT;
        let mut buf = String::new();
        let mut k: usize = 0;
        while k < self.sz
            invariant
                k <= self.sz,
                buf@ == spaces(k as nat),
            decreases self.sz - k,
        {
            push_char(&mut buf, ' ');
            k = k + 1;
            assert(buf@ =~= spaces(k as nat));
        }
        self.buf = buf;
    }
}

/// The four brackets of JSON.
#[derive(Clone, Copy, Debug, PartialEq, Eq, Structural)]
pub enum Bracket {
    LBrace,
    RBrace,
    LCurly,
    RCurly,
}

pub open spec fn bracket_char(b: Bracket) -> char {
    match b {
        Bracket::LBrace => '[',
        Bracket::RBrace => ']',
        Bracket::LCurly => '{',
        Bracket::RCurly => '}',
    }
}

fn bracket_to_char(b: Bracket) -> (r: char)
    ensures
        r == bracket_char(b),
{
    match b {
        Bracket::LBrace => '[',
        Bracket::RBrace => ']',
        Bracket::LCurly => '{',
        Bracket::RCurly => '}',
    }
}

/// A value with every double quote escaped by a backslash.
pub open spec fn escaped(value: Seq<char>) -> Seq<char> {
    replaced(value, '"', seq!['\\', '"'])
}

/// A new line at indentation `p`.
pub open spec fn line_start(p: nat) -> Seq<char> {
    seq!['\n'] + spaces(p)
}

/// `"key": "value",` on a new line, the value escaped.
pub open spec fn line_text(p: nat, key: Seq<char>, value: Seq<char>) -> Seq<char> {
    line_start(p) + seq!['"'] + key + seq!['"', ':', ' ', '"'] + escaped(value) + seq!['"', ',']
}

/// `"key":` on a new line.
pub open spec fn key_text(p: nat, key: Seq<char>) -> Seq<char> {
    line_start(p) + seq!['"'] + key + seq!['"', ':']
}

/// `"key": [` (or another bracket) on a new line.
pub open spec fn key_bracket_text(p: nat, key: Seq<char>, b: Bracket) -> Seq<char> {
    line_start(p) + seq!['"'] + key + seq!['"', ':', ' ', bracket_char(b)]
}

/// A bracket alone on a new line.
pub open spec fn bracket_text(p: nat, b: Bracket) -> Seq<char> {
    line_start(p).push(bracket_char(b))
}

/// Whether `b` opens an array or an object.
pub open spec fn is_open(b: Bracket) -> bool {
    b == Bracket::LBrace || b == Bracket::LCurly
}

/// Whether `close` is the bracket that ends `open`.
pub open spec fn closes(open: Bracket, close: Bracket) -> bool {
    (open == Bracket::LBrace && close == Bracket::RBrace) || (open == Bracket::LCurly && close == Bracket::RCurly)
}

/// Reads the brackets of `t` from the open brackets `s`, indentation `base` standing for
/// none open: each opening bracket must sit one unit deeper per bracket already open,
/// and each closing one must end the innermost open bracket at that bracket's
/// indentation. The brackets left open, or `None` at the first that breaks this.
pub open spec fn nest(t: Seq<(Bracket, nat)>, base: nat, s: Seq<Bracket>) -> Option<Seq<Bracket>>
    decreases t.len(),
{
    if t.len() == 0 {
        Some(s)
    } else {
        let b = t[0].0;
        let i = t[0].1;
        if is_open(b) {
            if i == base + 2 * s.len() {
                nest(t.drop_first(), base, s.push(b))
            } else {
                None
            }
        } else if s.len() > 0 && closes(s.last(), b) && i == base + 2 * (s.len() - 1) {
            nest(t.drop_first(), base, s.drop_last())
        } else {
            None
        }
    }
}

/// The brackets of `t` pair up, each pair at one indentation, one unit deeper per level
/// of nesting, starting at `base`.
pub open spec fn balanced(t: Seq<(Bracket, nat)>, base: nat) -> bool {
    nest(t, base, Seq::empty()) == Some(Seq::<Bracket>::empty())
}

/// Reading `a + b` is reading `a`, then `b` from where `a` left off.
pub proof fn lemma_nest_concat(a: Seq<(Bracket, nat)>, b: Seq<(Bracket, nat)>, base: nat, s: Seq<Bracket>)
    ensures
        nest(a + b, base, s) == (match nest(a, base, s) {
            Some(s2) => nest(b, base, s2),
            None => None,
        }),
    decreases a.len(),
{
    if a.len() > 0 {
        assert((a + b).drop_first() =~= a.drop_first() + b);
        assert((a + b)[0] == a[0]);
        let x = a[0].0;
        if is_open(x) {
            lemma_nest_concat(a.drop_first(), b, base, s.push(x));
        } else if s.len() > 0 {
            lemma_nest_concat(a.drop_first(), b, base, s.drop_last());
        }
    } else {
        assert(a + b =~= b);
    }
}

/// Brackets that nest from `s2` at `base + 2 * s.len()` nest the same way below the
/// brackets `s` at `base`.
pub proof fn lemma_nest_shift(t: Seq<(Bracket, nat)>, base: nat, s: Seq<Bracket>, s2: Seq<Bracket>)
    requires
        nest(t, base + 2 * s.len(), s2) is Some,
    ensures
        nest(t, base, s + s2) == Some(s + nest(t, base + 2 * s.len(), s2)->0),
    decreases t.len(),
{
    if t.len() > 0 {
        let x = t[0].0;
        if is_open(x) {
            assert((s + s2).push(x) =~= s + s2.push(x));
            lemma_nest_shift(t.drop_first(), base, s, s2.push(x));
        } else {
            assert((s + s2).last() == s2.last());
            assert((s + s2).drop_last() =~= s + s2.drop_last());
            lemma_nest_shift(t.drop_first(), base, s, s2.drop_last());
        }
    }
}

/// Balanced brackets one after another are balanced.
pub proof fn lemma_balanced_concat(a: Seq<(Bracket, nat)>, b: Seq<(Bracket, nat)>, base: nat)
    requires
        balanced(a, base),
        balanced(b, base),
    ensures
        balanced(a + b, base),
{
    lemma_nest_concat(a, b, base, Seq::empty());
}

/// An opening bracket at `base`, brackets balanced one unit deeper, and the matching
/// closing bracket at `base` are balanced.
pub proof fn lemma_balanced_wrap(open: Bracket, close: Bracket, t: Seq<(Bracket, nat)>, base: nat)
    requires
        is_open(open),
        closes(open, close),
        balanced(t, base + 2),
    ensures
        balanced(seq![(open, base)] + t + seq![(close, base)], base),
{
    reveal_with_fuel(nest, 2);
    let o = seq![(open, base)];
    let c = seq![(close, base)];
    lemma_nest_concat(o + t, c, base, Seq::empty());
    lemma_nest_concat(o, t, base, Seq::empty());
    assert(o.drop_first() =~= Seq::<(Bracket, nat)>::empty());
    assert(nest(o, base, Seq::empty()) == Some(seq![open])) by {
        assert(Seq::<Bracket>::empty().push(open) =~= seq![open]);
    }
    lemma_nest_shift(t, base, seq![open], Seq::empty());
    assert(seq![open] + Seq::<Bracket>::empty() =~= seq![open]);
    assert(c.drop_first() =~= Seq::<(Bracket, nat)>::empty());
    assert(seq![open].drop_last() =~= Seq::<Bracket>::empty());
}

/// Writes JSON fragments one after another; it keeps the indentation but checks no structure.
///
/// `trace` records each bracket written, with the indentation it was written at.
pub struct JSONSerializer {
    pub prefix: Prefix,
    pub out: String,
    pub trace: Ghost<Seq<(Bracket, nat)>>,
}

impl JSONSerializer {
    pub open spec fn wf(&self) -> bool {
        self.prefix.wf()
    }

    /// The current indentation width.
    pub open spec fn level(&self) -> nat {
        self.prefix.width()
    }

    /// An empty document at indentation zero.
    pub fn new() -> (r: JSONSerializer)
        ensures
            r.wf(),
            r.level() == 0,
            r.out@ == Seq::<char>::empty(),
            r.trace@ == Seq::<(Bracket, nat)>::empty(),
    {
        JSONSerializer { prefix: Prefix::new(), out: String::new(), trace: Ghost(Seq::empty()) }
    }

    /// The current indentation width.
    pub fn level_exec(&self) -> (r: usize)
        ensures
            r == self.level(),
    {
        self.prefix.width_exec()
    }

    fn write(&mut self, s: &str)
        ensures
            final(self).trace == old(self).trace,
            final(self).prefix == old(self).prefix,
            final(self).out@ == old(self).out@ + s@,
    {
        self.out.append(s);
    }

    fn write_char(&mut self, c: char)
        ensures
            final(self).trace == old(self).trace,
            final(self).prefix == old(self).prefix,
            final(self).out@ == old(self).out@.push(c),
    {
        push_char(&mut self.out, c);
    }

    fn new_line(&mut self)
        requires
            old(self).wf(),
        ensures
            final(self).trace == old(self).trace,
            final(self).prefix == old(self).prefix,
            final(self).out@ == old(self).out@ + line_start(old(self).level()),
    {
        self.write_char('\n');
        let p = self.prefix.as_str();
        self.out.append(p);
        assert(self.out@ =~= old(self).out@ + line_start(old(self).level()));
    }

    fn open_key(&mut self, key: &str)
        requires
            old(self).wf(),
        ensures
            final(self).trace == old(self).trace,
            final(self).prefix == old(self).prefix,
            final(self).out@ == old(self).out@ + key_text(old(self).level(), key@),
    {
        self.new_line();
        self.write_char('"');
        self.write(key);
        self.write_char('"');
        self.write_char(':');
        assert(self.out@ =~= old(self).out@ + key_text(old(self).level(), key@));
    }

    /// `"key": "value",` on a new line; double quotes in the value are escaped.
    pub fn render_line(&mut self, key: &str, value: &str)
        requires
            old(self).wf(),
        ensures
            final(self).trace == old(self).trace,
            final(self).prefix == old(self).prefix,
            final(self).out@ == old(self).out@ + line_text(old(self).level(), key@, value@),
    {
        let quote = "\\\"";
        proof {
            reveal_strlit("\\\"");
            assert(quote@ =~= seq!['\\', '"']);
        }
        let value_with_escaped_quotes = replace(value, '"', quote);
        self.open_key(key);
        self.write_char(' ');
        self.write_char('"');
        self.write(value_with_escaped_quotes.as_str());
        self.write_char('"');
        self.write_char(',');
        assert(self.out@ =~= old(self).out@ + line_text(old(self).level(), key@, value@));
    }

    /// `"key":` on a new line.
    pub fn render_line_without_value(&mut self, key: &str)
        requires
            old(self).wf(),
        ensures
            final(self).trace == old(self).trace,
            final(self).prefix == old(self).prefix,
            final(self).out@ == old(self).out@ + key_text(old(self).level(), key@),
    {
        self.open_key(key);
    }

    /// `"key": ` followed by a bracket, on a new line.
    pub fn render_line_with_bracket(&mut self, key: &str, br: Bracket)
        requires
            old(self).wf(),
        ensures
            final(self).trace@ == old(self).trace@.push((br, old(self).level())),
            final(self).prefix == old(self).prefix,
            final(self).out@ == old(self).out@ + key_bracket_text(old(self).level(), key@, br),
    {
        self.open_key(key);
        self.write_char(' ');
        self.write_char(bracket_to_char(br));
        proof {
            self.trace@ = self.trace@.push((br, self.level()));
        }
        assert(self.out@ =~= old(self).out@ + key_bracket_text(old(self).level(), key@, br));
    }

    /// A bare separator.
    pub fn render_comma(&mut self)
        ensures
            final(self).trace == old(self).trace,
            final(self).prefix == old(self).prefix,
            final(self).out@ == old(self).out@.push(','),
    {
        self.write_char(',');
    }

    /// A bracket alone on a new line.
    pub fn render_bracket(&mut self, br: Bracket)
        requires
            old(self).wf(),
        ensures
            final(self).trace@ == old(self).trace@.push((br, old(self).level())),
            final(self).prefix == old(self).prefix,
            final(self).out@ == old(self).out@ + bracket_text(old(self).level(), br),
    {
        self.new_line();
        self.write_char(bracket_to_char(br));
        proof {
            self.trace@ = self.trace@.push((br, self.level()));
        }
    }
}

} // verus!
