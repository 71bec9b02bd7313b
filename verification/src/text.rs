use vstd::prelude::*;

verus! {

broadcast use vstd::string::axiom_spec_iter;

// ---------------------------------------------------------------------------
// Building strings
// ---------------------------------------------------------------------------

/// Appends one character to a `String` (`String::push`).
#[verifier::external_body]
pub(crate) fn push_char(s: &mut String, c: char)
    ensures
        final(s)@ == old(s)@.push(c),
{
    s.push(c);
}

/// The characters of a string slice, in order.
pub fn chars_of(s: &str) -> (v: Vec<char>)
    ensures
        v@ == s@,
{
    let mut v: Vec<char> = Vec::new();
    for c in it: s.chars()
        invariant
            it.seq() == s@,
            v@ == it.seq().take(it.index()),
    {
        v.push(c);
    }
    v
}

/// Appends the characters `v[from..]` to `s`.
pub fn push_chars_from(s: &mut String, v: &Vec<char>, from: usize)
    requires
        from <= v@.len(),
    ensures
        final(s)@ == old(s)@ + v@.skip(from as int),
{
    let ghost start = s@;
    let mut i = from;
    while i < v.len()
        invariant
            from <= i <= v@.len(),
            s@ == start + v@.subrange(from as int, i as int),
        decreases v@.len() - i,
    {
        push_char(s, v[i]);
        i = i + 1;
        assert(v@.subrange(from as int, i as int) =~= v@.subrange(from as int, (i - 1) as int).push(
            v@[i - 1],
        ));
    }
    assert(v@.subrange(from as int, v@.len() as int) =~= v@.skip(from as int));
}

/// A `String` holding exactly the given characters.
pub fn string_of(v: &Vec<char>) -> (s: String)
    ensures
        s@ == v@,
{
    let mut s = String::new();
    push_chars_from(&mut s, v, 0);
    assert(v@.skip(0) =~= v@);
    s
}

// ---------------------------------------------------------------------------
// Comparing
// ---------------------------------------------------------------------------

/// `p` is a prefix of `s`.
pub open spec fn has_prefix(s: Seq<char>, p: Seq<char>) -> bool {
    p.len() <= s.len() && s.take(p.len() as int) == p
}

/// Whether `p` occurs in `v` starting at position `at`.
pub fn matches_at(v: &Vec<char>, at: usize, p: &Vec<char>) -> (b: bool)
    requires
        at <= v@.len(),
    ensures
        b == has_prefix(v@.skip(at as int), p@),
{
    if p.len() > v.len() - at {
        return false;
    }
    let mut j: usize = 0;
    while j < p.len()
        invariant
            at + p@.len() <= v@.len(),
            v@.len() == v.len(),
            j <= p@.len(),
            forall|k: int| 0 <= k < j ==> v@[at + k] == p@[k],
        decreases p@.len() - j,
    {
        if v[at + j] != p[j] {
            assert(v@.skip(at as int).take(p@.len() as int)[j as int] != p@[j as int]);
            return false;
        }
        j = j + 1;
    }
    assert(v@.skip(at as int).take(p@.len() as int) =~= p@);
    true
}

/// Whether two string slices hold the same characters.
pub fn str_eq(a: &str, b: &str) -> (r: bool)
    ensures
        r == (a@ == b@),
{
    let va = chars_of(a);
    let vb = chars_of(b);
    if va.len() != vb.len() {
        return false;
    }
    let r = matches_at(&va, 0, &vb);
    assert(va@.skip(0) =~= va@);
    if r {
        assert(va@.take(vb@.len() as int) =~= va@);
    }
    r
}

/// Whether the string slice `s` starts with `p`.
pub fn str_has_prefix(s: &str, p: &str) -> (r: bool)
    ensures
        r == has_prefix(s@, p@),
{
    let vs = chars_of(s);
    let vp = chars_of(p);
    assert(vs@.skip(0) =~= vs@);
    matches_at(&vs, 0, &vp)
}

/// Whether `c` occurs in `s`.
pub fn contains_char(s: &Vec<char>, c: char) -> (r: bool)
    ensures
        r == s@.contains(c),
{
    let mut i: usize = 0;
    while i < s.len()
        invariant
            i <= s@.len(),
            forall|k: int| 0 <= k < i ==> s@[k] != c,
        decreases s@.len() - i,
    {
        if s[i] == c {
            return true;
        }
        i = i + 1;
    }
    false
}

} // verus!

verus! {

/// The part of a URL before its first `#`, that is, without the fragment.
pub open spec fn before_fragment(s: Seq<char>) -> Seq<char>
    decreases s.len(),
{
    if s.len() == 0 {
        s
    } else if s[0] == '#' {
        Seq::empty()
    } else {
        seq![s[0]] + before_fragment(s.drop_first())
    }
}

/// How many characters precede the first `#` of `v` (all of them if none).
pub fn fragment_start(v: &Vec<char>) -> (n: usize)
    ensures
        n <= v@.len(),
        v@.take(n as int) == before_fragment(v@),
{
    let mut i: usize = 0;
    assert(v@.skip(0) =~= v@);
    assert(Seq::<char>::empty() + v@ =~= v@);
    assert(v@.take(0) =~= Seq::<char>::empty());
    while i < v.len()
        invariant
            i <= v@.len(),
            before_fragment(v@) == v@.take(i as int) + before_fragment(v@.skip(i as int)),
        decreases v@.len() - i,
    {
        if v[i] == '#' {
            assert(before_fragment(v@.skip(i as int)) =~= Seq::<char>::empty());
            assert(v@.take(i as int) + Seq::<char>::empty() =~= v@.take(i as int));
            return i;
        }
        assert(v@.skip(i as int).drop_first() =~= v@.skip(i + 1));
        assert(v@.take(i as int) + seq![v@[i as int]] =~= v@.take(i + 1));
        assert(v@.take(i as int) + (seq![v@[i as int]] + before_fragment(v@.skip(i + 1)))
            =~= v@.take(i + 1) + before_fragment(v@.skip(i + 1)));
        i = i + 1;
    }
    assert(v@.skip(i as int) =~= Seq::<char>::empty());
    assert(v@.take(i as int) =~= v@);
    assert(v@ + Seq::<char>::empty() =~= v@);
    i
}

/// Whether two URLs agree once their fragments are dropped.
pub fn same_before_fragment(a: &str, b: &str) -> (r: bool)
    ensures
        r == (before_fragment(a@) == before_fragment(b@)),
{
    let va = chars_of(a);
    let vb = chars_of(b);
    let na = fragment_start(&va);
    let nb = fragment_start(&vb);
    if na != nb {
        assert(before_fragment(va@).len() != before_fragment(vb@).len());
        return false;
    }
    let mut i: usize = 0;
    while i < na
        invariant
            na == nb,
            va@ == a@,
            vb@ == b@,
            va@.take(na as int) == before_fragment(va@),
            vb@.take(nb as int) == before_fragment(vb@),
            na <= va@.len(),
            nb <= vb@.len(),
            i <= na,
            forall|k: int| 0 <= k < i ==> va@[k] == vb@[k],
        decreases na - i,
    {
        if va[i] != vb[i] {
            assert(before_fragment(va@)[i as int] != before_fragment(vb@)[i as int]);
            return false;
        }
        i = i + 1;
    }
    assert(va@.take(na as int) =~= vb@.take(nb as int));
    true
}

} // verus!

verus! {

/// `s` with every occurrence of `from` replaced by `to`, scanning from the
/// left and not overlapping, as `str::replace` does for a non-empty pattern.
pub open spec fn replaced(s: Seq<char>, from: Seq<char>, to: Seq<char>) -> Seq<char>
    decreases s.len(),
{
    if from.len() == 0 || s.len() < from.len() {
        s
    } else if s.take(from.len() as int) == from {
        to + replaced(s.skip(from.len() as int), from, to)
    } else {
        seq![s[0]] + replaced(s.skip(1), from, to)
    }
}

/// Replaces every occurrence of the non-empty pattern `from` in `s` by `to`
/// (see [`replaced`]).
pub fn replace_all(s: &str, from: &str, to: &str) -> (r: String)
    requires
        from@.len() > 0,
    ensures
        r@ == replaced(s@, from@, to@),
{
    let v = chars_of(s);
    let f = chars_of(from);
    let k = f.len();
    let mut out = String::new();
    let mut i: usize = 0;
    assert(v@.skip(0) =~= v@);
    assert(Seq::<char>::empty() + replaced(v@, f@, to@) =~= replaced(v@, f@, to@));
    while i < v.len()
        invariant
            v@ == s@,
            f@ == from@,
            k == f@.len(),
            k > 0,
            i <= v@.len(),
            replaced(v@, f@, to@) == out@ + replaced(v@.skip(i as int), f@, to@),
        decreases v@.len() - i,
    {
        let ghost rest = v@.skip(i as int);
        let ghost before = out@;
        if matches_at(&v, i, &f) {
            out.append(to);
            assert(rest.skip(k as int) =~= v@.skip((i + k) as int));
            assert(before + (to@ + replaced(rest.skip(k as int), f@, to@)) =~= out@ + replaced(
                v@.skip((i + k) as int),
                f@,
                to@,
            ));
            i = i + k;
        } else {
            push_char(&mut out, v[i]);
            assert(rest.skip(1) =~= v@.skip(i + 1));
            proof {
                if rest.len() < f@.len() {
                    assert(rest =~= seq![v@[i as int]] + rest.skip(1));
                }
            }
            assert(before + (seq![v@[i as int]] + replaced(rest.skip(1), f@, to@)) =~= out@
                + replaced(v@.skip(i + 1), f@, to@));
            i = i + 1;
        }
    }
    assert(v@.skip(i as int) =~= Seq::<char>::empty());
    assert(out@ + Seq::<char>::empty() =~= out@);
    out
}

} // verus!
