//! Text helpers: character-level search and replacement, and the few
//! operations of the standard library that the gateway's rules are stated in.

use vstd::prelude::*;
use vstd::string::*;

verus! {

/// Whether `pat` occurs in `s` at position `at`.
pub open spec fn occurs_at(s: Seq<char>, at: int, pat: Seq<char>) -> bool {
    0 <= at && at + pat.len() <= s.len() && s.subrange(at, at + pat.len()) == pat
}

/// Whether `pat` occurs somewhere in `s`.
pub open spec fn occurs_in(s: Seq<char>, pat: Seq<char>) -> bool {
    exists|at: int| occurs_at(s, at, pat)
}

/// `s` with every occurrence of `pat` replaced by `to`, occurrences taken
/// from the left and never overlapping; an empty `pat` replaces nothing.
pub open spec fn replaced(s: Seq<char>, pat: Seq<char>, to: Seq<char>) -> Seq<char>
    decreases s.len(),
{
    if pat.len() == 0 || s.len() < pat.len() {
        s
    } else if occurs_at(s, 0, pat) {
        to + replaced(s.skip(pat.len() as int), pat, to)
    } else {
        seq![s[0]] + replaced(s.skip(1), pat, to)
    }
}

/// `s` without the occurrences of `pat` that it begins with, one after the
/// other; an empty `pat` strips nothing.
pub open spec fn without_leading(s: Seq<char>, pat: Seq<char>) -> Seq<char>
    decreases s.len(),
{
    if pat.len() > 0 && occurs_at(s, 0, pat) {
        without_leading(s.skip(pat.len() as int), pat)
    } else {
        s
    }
}

/// What `str::to_lowercase` gives for a string of these characters.
pub uninterp spec fn lowercase_of(s: Seq<char>) -> Seq<char>;

/// What `char::is_whitespace` answers for this character.
pub uninterp spec fn whitespace(c: char) -> bool;

/// `s` without the whitespace it begins with.
pub open spec fn without_leading_space(s: Seq<char>) -> Seq<char>
    decreases s.len(),
{
    if s.len() > 0 && whitespace(s[0]) {
        without_leading_space(s.skip(1))
    } else {
        s
    }
}

/// `s` without the whitespace it ends with.
pub open spec fn without_trailing_space(s: Seq<char>) -> Seq<char>
    decreases s.len(),
{
    if s.len() > 0 && whitespace(s.last()) {
        without_trailing_space(s.drop_last())
    } else {
        s
    }
}

/// `s` without the whitespace it begins and ends with.
pub open spec fn trimmed_of(s: Seq<char>) -> Seq<char> {
    without_trailing_space(without_leading_space(s))
}

/// Calls `str::to_lowercase`. The result is the lowercase form that the
/// standard library defines for the argument; nothing more is claimed of it
/// than that it is determined by the argument's characters.
#[verifier::external_body]
pub(crate) fn lowercase(s: &str) -> (r: String)
    ensures
        r@ == lowercase_of(s@),
{
    s.to_lowercase()
}

/// Calls `char::is_whitespace`. The result says whether the character has
/// the Unicode property `White_Space`; nothing more is claimed of it than
/// that it is determined by the character.
#[verifier::external_body]
fn is_whitespace(c: char) -> (r: bool)
    ensures
        r == whitespace(c),
{
    c.is_whitespace()
}

/// Calls `String::push`: appends one character.
#[verifier::external_body]
fn push_char(s: &mut String, c: char)
    ensures
        final(s)@ == old(s)@.push(c),
{
    s.push(c)
}

/// The characters of `s`, in order.
pub fn to_chars(s: &str) -> (v: Vec<char>)
    ensures
        v@ == s@,
{
    let mut v: Vec<char> = Vec::new();
    for c in it: s.chars()
        invariant
            it.seq() == s@,
            v@ == it.seq().take(it.index() as int),
    {
        v.push(c);
    }
    v
}

/// The string made of the characters of `v`, in order.
pub fn from_chars(v: &Vec<char>) -> (s: String)
    ensures
        s@ == v@,
{
    let mut s = String::new();
    let mut i: usize = 0;
    while i < v.len()
        invariant
            i <= v.len(),
            s@ == v@.take(i as int),
        decreases v.len() - i,
    {
        push_char(&mut s, v[i]);
        i += 1;
    }
    s
}

/// Whether `pat` occurs in `s` at position `at`.
pub fn matches_at(s: &Vec<char>, at: usize, pat: &Vec<char>) -> (r: bool)
    ensures
        r == occurs_at(s@, at as int, pat@),
{
    if at > s.len() || pat.len() > s.len() - at {
        return false;
    }
    let mut k: usize = 0;
    while k < pat.len()
        invariant
            k <= pat.len(),
            at + pat.len() <= s.len(),
            forall|j: int| 0 <= j < k ==> s@[at + j] == pat@[j],
        decreases pat.len() - k,
    {
        if s[at + k] != pat[k] {
            proof {
                assert(s@.subrange(at as int, at + pat.len())[k as int] == s@[at + k]);
            }
            return false;
        }
        k += 1;
    }
    proof {
        assert(s@.subrange(at as int, at + pat.len()) =~= pat@);
    }
    true
}

/// Whether `s` begins with `prefix`.
pub fn starts_with(s: &str, prefix: &str) -> (r: bool)
    ensures
        r == prefix@.is_prefix_of(s@),
{
    let sv = to_chars(s);
    let pv = to_chars(prefix);
    matches_at(&sv, 0, &pv)
}

/// Whether `pat` occurs somewhere in `s`.
pub fn contains(s: &str, pat: &str) -> (r: bool)
    ensures
        r == occurs_in(s@, pat@),
{
    let sv = to_chars(s);
    let pv = to_chars(pat);
    if pv.len() == 0 {
        proof {
            assert(sv@.subrange(0, 0) =~= pv@);
            assert(occurs_at(sv@, 0, pv@));
        }
        return true;
    }
    let mut i: usize = 0;
    while i < sv.len()
        invariant
            i <= sv.len(),
            pv.len() > 0,
            sv@ == s@,
            pv@ == pat@,
            forall|at: int| 0 <= at < i ==> !occurs_at(sv@, at, pv@),
        decreases sv.len() - i,
    {
        if matches_at(&sv, i, &pv) {
            proof {
                assert(occurs_at(sv@, i as int, pv@));
            }
            return true;
        }
        i += 1;
    }
    false
}

/// `s` with every occurrence of `pat` replaced by `to`, occurrences taken
/// from the left and never overlapping; an empty `pat` replaces nothing.
pub fn replace(s: &str, pat: &str, to: &str) -> (r: String)
    ensures
        r@ == replaced(s@, pat@, to@),
{
    let sv = to_chars(s);
    let pv = to_chars(pat);
    let tv = to_chars(to);
    if pv.len() == 0 {
        return from_chars(&sv);
    }
    let mut out: Vec<char> = Vec::new();
    let mut i: usize = 0;
    proof {
        assert(sv@.skip(0) == sv@);
        assert(out@ + replaced(sv@, pv@, tv@) == replaced(sv@, pv@, tv@));
    }
    while i < sv.len()
        invariant
            i <= sv.len(),
            pv.len() > 0,
            out@ + replaced(sv@.skip(i as int), pv@, tv@) == replaced(sv@, pv@, tv@),
        decreases sv.len() - i,
    {
        let ghost rest = sv@.skip(i as int);
        let ghost before = out@;
        if matches_at(&sv, i, &pv) {
            let mut k: usize = 0;
            while k < tv.len()
                invariant
                    k <= tv.len(),
                    out@ == before + tv@.take(k as int),
                decreases tv.len() - k,
            {
                out.push(tv[k]);
                k += 1;
            }
            proof {
                assert(tv@.take(tv.len() as int) == tv@);
                assert(rest.subrange(0, pv.len() as int) == sv@.subrange(i as int, i + pv.len()));
                assert(occurs_at(rest, 0, pv@));
                assert(rest.skip(pv.len() as int) == sv@.skip(i + pv.len()));
                assert(before + (tv@ + replaced(rest.skip(pv.len() as int), pv@, tv@)) == (before
                    + tv@) + replaced(rest.skip(pv.len() as int), pv@, tv@));
            }
            i += pv.len();
        } else {
            out.push(sv[i]);
            proof {
                assert(rest[0] == sv@[i as int]);
                assert(rest.skip(1) == sv@.skip(i + 1));
                if rest.len() >= pv.len() {
                    assert(rest.subrange(0, pv.len() as int) == sv@.subrange(
                        i as int,
                        i + pv.len(),
                    ));
                    assert(!occurs_at(rest, 0, pv@));
                    assert(before + (seq![rest[0]] + replaced(rest.skip(1), pv@, tv@)) == (before
                        + seq![rest[0]]) + replaced(rest.skip(1), pv@, tv@));
                    assert(before + seq![rest[0]] == before.push(rest[0]));
                } else {
                    lemma_short_unchanged(rest, pv@, tv@);
                    lemma_short_unchanged(rest.skip(1), pv@, tv@);
                    assert(rest == seq![rest[0]] + rest.skip(1));
                    assert(before + (seq![rest[0]] + rest.skip(1)) == before.push(rest[0])
                        + rest.skip(1));
                }
            }
            i += 1;
        }
    }
    proof {
        assert(sv@.skip(sv.len() as int) == Seq::<char>::empty());
        assert(out@ + Seq::<char>::empty() == out@);
    }
    from_chars(&out)
}

/// `s` without the occurrences of `pat` that it begins with; an empty `pat`
/// strips nothing.
pub fn strip_leading(s: &str, pat: &str) -> (r: String)
    ensures
        r@ == without_leading(s@, pat@),
{
    let sv = to_chars(s);
    let pv = to_chars(pat);
    let mut i: usize = 0;
    proof {
        assert(sv@.skip(0) == sv@);
    }
    if pv.len() > 0 {
        while matches_at(&sv, i, &pv)
            invariant
                i <= sv.len(),
                pv.len() > 0,
                without_leading(sv@.skip(i as int), pv@) == without_leading(sv@, pv@),
            decreases sv.len() - i,
        {
            proof {
                let rest = sv@.skip(i as int);
                assert(rest.subrange(0, pv.len() as int) == sv@.subrange(i as int, i + pv.len()));
                assert(rest.skip(pv.len() as int) == sv@.skip(i + pv.len()));
            }
            i += pv.len();
        }
        proof {
            let rest = sv@.skip(i as int);
            if i + pv.len() <= sv.len() {
                assert(rest.subrange(0, pv.len() as int) == sv@.subrange(i as int, i + pv.len()));
            }
            assert(!occurs_at(rest, 0, pv@));
        }
    }
    let mut out: Vec<char> = Vec::new();
    let mut k: usize = i;
    while k < sv.len()
        invariant
            i <= k <= sv.len(),
            out@ == sv@.subrange(i as int, k as int),
        decreases sv.len() - k,
    {
        out.push(sv[k]);
        k += 1;
    }
    proof {
        assert(sv@.subrange(i as int, sv.len() as int) == sv@.skip(i as int));
    }
    from_chars(&out)
}

/// `s` without the whitespace it begins and ends with.
pub fn trim(s: &str) -> (r: String)
    ensures
        r@ == trimmed_of(s@),
{
    let sv = to_chars(s);
    let mut i: usize = 0;
    proof {
        assert(sv@.skip(0) == sv@);
    }
    while i < sv.len() && is_whitespace(sv[i])
        invariant
            i <= sv.len(),
            without_leading_space(sv@.skip(i as int)) == without_leading_space(sv@),
        decreases sv.len() - i,
    {
        proof {
            assert(sv@.skip(i as int)[0] == sv@[i as int]);
            assert(sv@.skip(i as int).skip(1) == sv@.skip(i + 1));
        }
        i += 1;
    }
    proof {
        if i < sv.len() {
            assert(sv@.skip(i as int)[0] == sv@[i as int]);
        }
        assert(without_leading_space(sv@) == sv@.skip(i as int));
    }
    let mut j: usize = sv.len();
    proof {
        assert(sv@.subrange(i as int, j as int) == sv@.skip(i as int));
    }
    while j > i && is_whitespace(sv[j - 1])
        invariant
            i <= j <= sv.len(),
            without_trailing_space(sv@.subrange(i as int, j as int)) == trimmed_of(sv@),
        decreases j,
    {
        proof {
            let part = sv@.subrange(i as int, j as int);
            assert(part.last() == sv@[j - 1]);
            assert(part.drop_last() == sv@.subrange(i as int, j - 1));
        }
        j -= 1;
    }
    proof {
        let part = sv@.subrange(i as int, j as int);
        if j > i {
            assert(part.last() == sv@[j - 1]);
        }
        assert(without_trailing_space(part) == part);
    }
    let mut out: Vec<char> = Vec::new();
    let mut k: usize = i;
    while k < j
        invariant
            i <= k <= j <= sv.len(),
            out@ == sv@.subrange(i as int, k as int),
        decreases j - k,
    {
        out.push(sv[k]);
        k += 1;
    }
    from_chars(&out)
}

/// Trimming leaves nothing exactly of the strings that hold nothing but
/// whitespace.
pub proof fn lemma_trimmed_empty(s: Seq<char>)
    ensures
        trimmed_of(s).len() == 0 <==> forall|i: int| 0 <= i < s.len() ==> whitespace(#[trigger] s[i]),
    decreases s.len(),
{
    if s.len() > 0 && whitespace(s[0]) {
        let rest = s.skip(1);
        lemma_trimmed_empty(rest);
        if forall|i: int| 0 <= i < rest.len() ==> whitespace(#[trigger] rest[i]) {
            assert forall|i: int| 0 <= i < s.len() implies whitespace(#[trigger] s[i]) by {
                if i > 0 {
                    assert(s[i] == rest[i - 1]);
                }
            }
        }
        if forall|i: int| 0 <= i < s.len() ==> whitespace(#[trigger] s[i]) {
            assert forall|i: int| 0 <= i < rest.len() implies whitespace(#[trigger] rest[i]) by {
                assert(rest[i] == s[i + 1]);
            }
        }
    } else if s.len() > 0 {
        lemma_trailing_keeps_first(s);
    }
}

/// Stripping trailing whitespace leaves a string that begins with a
/// character that is none.
pub proof fn lemma_trailing_keeps_first(s: Seq<char>)
    requires
        s.len() > 0,
        !whitespace(s[0]),
    ensures
        without_trailing_space(s).len() > 0,
    decreases s.len(),
{
    if whitespace(s.last()) {
        assert(s.len() > 1);
        assert(s.drop_last()[0] == s[0]);
        lemma_trailing_keeps_first(s.drop_last());
    }
}

/// A string shorter than the pattern holds no occurrence of it.
pub proof fn lemma_short_unchanged(s: Seq<char>, pat: Seq<char>, to: Seq<char>)
    requires
        s.len() < pat.len(),
    ensures
        replaced(s, pat, to) == s,
{
}

} // verus!
