//! Character-level text operations used throughout the library.
use vstd::prelude::*;

verus! {

/// `s` with every occurrence of the character `c` taken out.
pub open spec fn without_char(s: Seq<char>, c: char) -> Seq<char>
    decreases s.len(),
{
    if s.len() == 0 {
        Seq::empty()
    } else {
        let rest = without_char(s.drop_last(), c);
        if s.last() == c {
            rest
        } else {
            rest.push(s.last())
        }
    }
}

/// The text as it stands once every double quote is taken out.
pub open spec fn unquoted(s: Seq<char>) -> Seq<char> {
    without_char(s, '"')
}

/// `s` with every non-overlapping occurrence of `pat`, found from the left,
/// taken out. For an empty pattern the text is left as it is.
pub open spec fn without_pattern(s: Seq<char>, pat: Seq<char>) -> Seq<char>
    decreases s.len(),
{
    if pat.len() == 0 || s.len() < pat.len() {
        s
    } else if s.take(pat.len() as int) == pat {
        without_pattern(s.skip(pat.len() as int), pat)
    } else {
        seq![s[0]].add(without_pattern(s.skip(1), pat))
    }
}

/// Appends one character to a string.
#[verifier::external_body]
pub(crate) fn push_char(s: &mut String, c: char)
    ensures
        final(s)@ == old(s)@.push(c),
{
    s.push(c);
}

/// The characters of a string slice, in order.
pub fn chars_of(s: &str) -> (v: Vec<char>)
    ensures
        v@ == s@,
{
    let mut v: Vec<char> = Vec::new();
    for c in it: s.chars()
        invariant
            v@ == it.seq().take(it.index() as int),
    {
        v.push(c);
        assert(it.seq().take(it.index() + 1) == it.seq().take(it.index() as int).push(c));
    }
    v
}

/// A string holding the given characters.
pub fn string_of(cs: &[char]) -> (s: String)
    ensures
        s@ == cs@,
{
    let mut s = String::new();
    let mut i: usize = 0;
    while i < cs.len()
        invariant
            i <= cs.len(),
            s@ == cs@.take(i as int),
        decreases cs.len() - i,
    {
        push_char(&mut s, cs[i]);
        i = i + 1;
        assert(cs@.take(i as int) == cs@.take(i - 1).push(cs@[i - 1]));
    }
    assert(cs@.take(cs.len() as int) == cs@);
    s
}


/// Whether `pat` occurs in `s` starting at position `at`.
fn occurs_at(s: &Vec<char>, at: usize, pat: &Vec<char>) -> (r: bool)
    requires
        at + pat.len() <= s.len(),
    ensures
        r == (s@.subrange(at as int, at + pat.len()) == pat@),
{
    let mut j: usize = 0;
    while j < pat.len()
        invariant
            j <= pat.len(),
            at + pat.len() <= s.len(),
            forall|k: int| 0 <= k < j ==> s@[at + k] == pat@[k],
        decreases pat.len() - j,
    {
        if s[at + j] != pat[j] {
            assert(s@.subrange(at as int, at + pat.len())[j as int] != pat@[j as int]);
            return false;
        }
        j = j + 1;
    }
    assert(s@.subrange(at as int, at + pat.len()) =~= pat@);
    true
}

/// Whether the text starts with the given prefix.
pub fn starts_with(s: &str, prefix: &str) -> (r: bool)
    ensures
        r == (prefix@.len() <= s@.len() && s@.take(prefix@.len() as int) == prefix@),
{
    let sv = chars_of(s);
    let pv = chars_of(prefix);
    if pv.len() > sv.len() {
        return false;
    }
    let r = occurs_at(&sv, 0, &pv);
    assert(sv@.subrange(0, pv@.len() as int) == sv@.take(pv@.len() as int));
    r
}

/// The text with every double quote taken out.
pub fn strip_quotes(s: &str) -> (r: String)
    ensures
        r@ == unquoted(s@),
{
    let cs = chars_of(s);
    let mut out: Vec<char> = Vec::new();
    let mut i: usize = 0;
    while i < cs.len()
        invariant
            i <= cs.len(),
            cs@ == s@,
            out@ == unquoted(cs@.take(i as int)),
        decreases cs.len() - i,
    {
        let c = cs[i];
        assert(cs@.take(i + 1).drop_last() == cs@.take(i as int));
        if c != '"' {
            out.push(c);
        }
        i = i + 1;
    }
    assert(cs@.take(cs.len() as int) == cs@);
    string_of(out.as_slice())
}

proof fn lemma_without_pattern_step(s: Seq<char>, pat: Seq<char>, i: int)
    requires
        pat.len() > 0,
        0 <= i,
        i + pat.len() <= s.len(),
    ensures
        s.subrange(i, i + pat.len()) == pat ==>
            without_pattern(s.skip(i), pat) == without_pattern(s.skip(i + pat.len()), pat),
        s.subrange(i, i + pat.len()) != pat ==>
            without_pattern(s.skip(i), pat) == seq![s[i]].add(without_pattern(s.skip(i + 1), pat)),
{
    let t = s.skip(i);
    assert(t.take(pat.len() as int) == s.subrange(i, i + pat.len()));
    assert(t.skip(pat.len() as int) == s.skip(i + pat.len()));
    assert(t.skip(1) == s.skip(i + 1));
    assert(t[0] == s[i]);
}

/// The text with every non-overlapping occurrence of `pat`, taken from the
/// left, removed.
pub fn remove_pattern(s: &str, pat: &str) -> (r: String)
    ensures
        r@ == without_pattern(s@, pat@),
{
    let cs = chars_of(s);
    let pv = chars_of(pat);
    if pv.len() == 0 {
        return string_of(cs.as_slice());
    }
    let n: usize = cs.len();
    let p: usize = pv.len();
    let mut out: Vec<char> = Vec::new();
    let mut i: usize = 0;
    assert(cs@.skip(0) == cs@);
    while p <= n && i <= n - p
        invariant
            cs@ == s@,
            pv@ == pat@,
            n == cs.len(),
            p == pv.len(),
            p > 0,
            i <= n,
            out@ + without_pattern(cs@.skip(i as int), pv@) == without_pattern(cs@, pv@),
        decreases n - i,
    {
        proof {
            lemma_without_pattern_step(cs@, pv@, i as int);
        }
        if occurs_at(&cs, i, &pv) {
            i = i + p;
        } else {
            let ghost before = out@;
            out.push(cs[i]);
            assert(before + seq![cs@[i as int]].add(without_pattern(cs@.skip(i + 1), pv@))
                == out@ + without_pattern(cs@.skip(i + 1), pv@));
            i = i + 1;
        }
    }
    assert(without_pattern(cs@.skip(i as int), pv@) == cs@.skip(i as int));
    while i < n
        invariant
            cs@ == s@,
            n == cs.len(),
            i <= n,
            out@ + cs@.skip(i as int) == without_pattern(cs@, pv@),
        decreases n - i,
    {
        let ghost before = out@;
        out.push(cs[i]);
        assert(cs@.skip(i as int) == seq![cs@[i as int]] + cs@.skip(i + 1));
        i = i + 1;
    }
    assert(cs@.skip(n as int) == Seq::<char>::empty());
    assert(out@ + cs@.skip(n as int) == out@);
    string_of(out.as_slice())
}


/// Taking the double quotes out leaves none, and doing it again changes
/// nothing.
pub proof fn law_unquoted_has_no_quotes(s: Seq<char>)
    ensures
        !unquoted(s).contains('"'),
        unquoted(unquoted(s)) == unquoted(s),
        unquoted(s).len() <= s.len(),
    decreases s.len(),
{
    if s.len() > 0 {
        law_unquoted_has_no_quotes(s.drop_last());
        let r = unquoted(s.drop_last());
        if s.last() != '"' {
            let t = r.push(s.last());
            assert(t.drop_last() == r);
            assert forall|i: int| 0 <= i < t.len() implies t[i] != '"' by {
                if i < r.len() {
                    assert(t[i] == r[i]);
                    assert(!r.contains('"'));
                }
            }
        }
    }
}


/// Taking the double quotes out keeps every other character in order: a text
/// without double quotes is left as it is, and the two parts of a text are
/// handled one after the other.
pub proof fn law_unquoted_keeps_other_characters(a: Seq<char>, b: Seq<char>)
    ensures
        !a.contains('"') ==> unquoted(a) == a,
        unquoted(a + b) == unquoted(a) + unquoted(b),
    decreases b.len(),
{
    lemma_unquoted_identity(a);
    if b.len() > 0 {
        law_unquoted_keeps_other_characters(a, b.drop_last());
        assert((a + b).drop_last() == a + b.drop_last());
        assert((a + b).last() == b.last());
    } else {
        assert(a + b == a);
        assert(unquoted(b) == Seq::<char>::empty());
    }
}

proof fn lemma_unquoted_identity(a: Seq<char>)
    ensures
        !a.contains('"') ==> unquoted(a) == a,
    decreases a.len(),
{
    if a.len() > 0 && !a.contains('"') {
        let t = a.drop_last();
        assert(!t.contains('"')) by {
            if t.contains('"') {
                let k: int = choose|k: int| 0 <= k < t.len() && t[k] == '"';
                assert(a[k] == '"');
            }
        }
        lemma_unquoted_identity(t);
        assert(a.last() != '"') by {
            assert(a[a.len() - 1] == a.last());
        }
        assert(t.push(a.last()) == a);
    }
}


/// Taking the double quotes out of a lone double quote leaves nothing, and
/// any other character stays.
pub proof fn law_unquoted_single(c: char)
    ensures
        unquoted(seq![c]) == if c == '"' { Seq::<char>::empty() } else { seq![c] },
{
    assert(seq![c].drop_last() == Seq::<char>::empty());
    assert(seq![c].last() == c);
    assert(without_char(Seq::<char>::empty(), '"') == Seq::<char>::empty());
    assert(Seq::<char>::empty().push(c) == seq![c]);
}

/// A text in which the pattern does not occur is left as it is.
pub proof fn law_without_absent_pattern(s: Seq<char>, pat: Seq<char>)
    requires
        pat.len() > 0,
        forall|i: int| 0 <= i <= s.len() - pat.len() ==> #[trigger] s.subrange(i, i + pat.len()) != pat,
    ensures
        without_pattern(s, pat) == s,
    decreases s.len(),
{
    if s.len() >= pat.len() {
        assert(s.take(pat.len() as int) == s.subrange(0, pat.len() as int));
        let t = s.skip(1);
        assert forall|i: int| 0 <= i <= t.len() - pat.len() implies #[trigger] t.subrange(i, i + pat.len())
            != pat by {
            assert(t.subrange(i, i + pat.len()) == s.subrange(i + 1, i + 1 + pat.len()));
        }
        law_without_absent_pattern(t, pat);
        let z: int = 0;
        assert(s.subrange(z, z + pat.len()) != pat);
        assert(s.subrange(z, z + pat.len()) == s.subrange(0, pat.len() as int));
        assert(s.take(pat.len() as int) != pat);
        assert(without_pattern(s, pat) == seq![s[0]].add(without_pattern(t, pat)));
        assert(seq![s[0]].add(t) == s);
    }
}

} // verus!
