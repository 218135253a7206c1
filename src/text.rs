use vstd::prelude::*;

verus! {

/// `s` with every non-overlapping occurrence of `pat`, scanned from the left,
/// replaced by `rep`.
pub open spec fn replaced(s: Seq<char>, pat: Seq<char>, rep: Seq<char>) -> Seq<char>
    decreases s.len(),
{
    if pat.len() == 0 || s.len() < pat.len() {
        s
    } else if s.subrange(0, pat.len() as int) == pat {
        rep + replaced(s.skip(pat.len() as int), pat, rep)
    } else {
        seq![s[0]] + replaced(s.skip(1), pat, rep)
    }
}

/// `s` without the run of `c` that it starts with.
pub open spec fn without_leading(s: Seq<char>, c: char) -> Seq<char>
    decreases s.len(),
{
    if s.len() > 0 && s[0] == c {
        without_leading(s.skip(1), c)
    } else {
        s
    }
}

pub open spec fn has_prefix(s: Seq<char>, p: Seq<char>) -> bool {
    p.len() <= s.len() && s.subrange(0, p.len() as int) == p
}

pub open spec fn has_suffix(s: Seq<char>, p: Seq<char>) -> bool {
    p.len() <= s.len() && s.subrange(s.len() - p.len(), s.len() as int) == p
}

proof fn lemma_suffix_of_concat(a: Seq<char>, b: Seq<char>, p: Seq<char>)
    requires
        has_suffix(b, p),
    ensures
        has_suffix(a + b, p),
{
    assert((a + b).subrange((a + b).len() - p.len(), (a + b).len() as int) =~= b.subrange(
        b.len() - p.len(),
        b.len() as int,
    ));
}

/// Replacing a pattern whose first character occurs in it only once, in a
/// text that ends with the pattern, gives a text that ends with the
/// replacement.
pub proof fn replaced_ends_with_replacement(s: Seq<char>, pat: Seq<char>, rep: Seq<char>)
    requires
        pat.len() > 0,
        has_suffix(s, pat),
        forall|i: int| 0 < i < pat.len() ==> #[trigger] pat[i] != pat[0],
    ensures
        has_suffix(replaced(s, pat, rep), rep),
    decreases s.len(),
{
    let n = s.len() as int;
    let m = pat.len() as int;
    if s.subrange(0, m) == pat {
        let t = s.skip(m);
        if n == m {
            assert(t.len() == 0);
            assert(replaced(t, pat, rep) == t);
            assert(replaced(s, pat, rep) =~= rep);
            assert(rep.subrange(0, rep.len() as int) =~= rep);
        } else if n - m >= m {
            assert(t.subrange(t.len() - m, t.len() as int) =~= s.subrange(n - m, n));
            replaced_ends_with_replacement(t, pat, rep);
            lemma_suffix_of_concat(rep, replaced(t, pat, rep), rep);
        } else {
            let d = n - m;
            assert(s[d] == s.subrange(n - m, n)[0]);
            assert(s[d] == s.subrange(0, m)[d]);
            assert(pat[d] == pat[0]);
        }
    } else {
        if n == m {
            assert(s.subrange(0, m) =~= s.subrange(n - m, n));
        }
        let t = s.skip(1);
        assert(t.subrange(t.len() - m, t.len() as int) =~= s.subrange(n - m, n));
        replaced_ends_with_replacement(t, pat, rep);
        lemma_suffix_of_concat(seq![s[0]], replaced(t, pat, rep), rep);
    }
}

pub open spec fn is_upper_ascii(c: char) -> bool {
    'A' <= c && c <= 'Z'
}

/// Character-wise ASCII lower-casing: `r` is `s` with `A`..`Z` moved to `a`..`z`.
pub open spec fn is_ascii_lowering(s: Seq<char>, r: Seq<char>) -> bool {
    &&& r.len() == s.len()
    &&& forall|i: int|
        0 <= i < s.len() ==> #[trigger] r[i] as u32 == if is_upper_ascii(s[i]) {
            s[i] as u32 + 32
        } else {
            s[i] as u32 as int
        }
}

pub open spec fn all_ascii(s: Seq<char>) -> bool {
    forall|i: int| 0 <= i < s.len() ==> (#[trigger] s[i] as u32) < 128
}

/// What `str::to_lowercase` returns for `s`.
pub uninterp spec fn lower_of(s: Seq<char>) -> Seq<char>;

/// Relies on `str::to_lowercase`: the Unicode lower case of `s`, which on
/// ASCII text lowers `A`..`Z` and keeps every other character.
#[verifier::external_body]
pub(crate) fn lowercase(s: &str) -> (r: String)
    ensures
        r@ == lower_of(s@),
        all_ascii(s@) ==> is_ascii_lowering(s@, r@),
{
    s.to_lowercase()
}

/// Relies on `String::push`: appends one character.
#[verifier::external_body]
pub(crate) fn push_char(s: &mut String, c: char)
    ensures
        final(s)@ == old(s)@.push(c),
{
    s.push(c)
}

/// The characters of `s`, in order.
pub fn chars_of(s: &str) -> (r: Vec<char>)
    ensures
        r@ == s@,
{
    let mut r: Vec<char> = Vec::new();
    for c in it: s.chars()
        invariant
            r@ == it.seq().subrange(0, it.index() as int),
            it.seq() == s@,
    {
        r.push(c);
    }
    r
}

/// Appends the characters `v[from..]` to `out`.
pub(crate) fn push_tail(out: &mut String, v: &Vec<char>, from: usize)
    requires
        from <= v@.len(),
    ensures
        final(out)@ == old(out)@ + v@.skip(from as int),
{
    let mut i: usize = from;
    while i < v.len()
        invariant
            from <= i <= v@.len(),
            out@ == old(out)@ + v@.subrange(from as int, i as int),
        decreases v.len() - i,
    {
        push_char(out, v[i]);
        i = i + 1;
        assert(v@.subrange(from as int, i as int) =~= v@.subrange(from as int, i - 1).push(
            v@[i - 1],
        ));
    }
    assert(v@.subrange(from as int, i as int) =~= v@.skip(from as int));
}

/// Whether `p` occurs in `v` at position `at`.
pub(crate) fn occurs_at(v: &Vec<char>, at: usize, p: &Vec<char>) -> (r: bool)
    requires
        at <= v@.len(),
    ensures
        r == (at + p@.len() <= v@.len() && v@.subrange(at as int, at + p@.len()) == p@),
{
    if p.len() > v.len() - at {
        return false;
    }
    let n = v.len();
    let mut k: usize = 0;
    while k < p.len()
        invariant
            k <= p@.len(),
            n == v@.len(),
            at + p@.len() <= n,
            forall|j: int| 0 <= j < k ==> v@[at + j] == p@[j],
        decreases p.len() - k,
    {
        if v[at + k] != p[k] {
            assert(v@.subrange(at as int, at + p@.len())[k as int] != p@[k as int]);
            return false;
        }
        k = k + 1;
    }
    assert(v@.subrange(at as int, at + p@.len()) =~= p@);
    true
}

/// Whether `s` starts with `p`.
pub fn starts_with(s: &str, p: &str) -> (r: bool)
    ensures
        r == has_prefix(s@, p@),
{
    let sv = chars_of(s);
    let pv = chars_of(p);
    occurs_at(&sv, 0, &pv)
}

/// Whether `s` and `t` hold the same characters.
pub fn same_text(s: &str, t: &str) -> (r: bool)
    ensures
        r == (s@ == t@),
{
    let sv = chars_of(s);
    let tv = chars_of(t);
    if sv.len() != tv.len() {
        return false;
    }
    let r = occurs_at(&sv, 0, &tv);
    assert(sv@.subrange(0, tv@.len() as int) =~= sv@);
    r
}

/// `s` with every occurrence of `pat` replaced by `rep`, left to right.
pub fn replace_all(s: &str, pat: &str, rep: &str) -> (r: String)
    requires
        pat@.len() > 0,
    ensures
        r@ == replaced(s@, pat@, rep@),
{
    let sv = chars_of(s);
    let pv = chars_of(pat);
    let mut out = String::new();
    let mut i: usize = 0;
    assert(s@.skip(0) =~= s@);
    while i < sv.len()
        invariant
            i <= sv@.len(),
            sv@ == s@,
            pv@ == pat@,
            pat@.len() > 0,
            out@ + replaced(s@.skip(i as int), pat@, rep@) == replaced(s@, pat@, rep@),
        decreases sv.len() - i,
    {
        let ghost tail = s@.skip(i as int);
        let ghost before = out@;
        if occurs_at(&sv, i, &pv) {
            assert(tail.subrange(0, pat@.len() as int) =~= s@.subrange(i as int, i + pat@.len()));
            assert(tail.skip(pat@.len() as int) =~= s@.skip(i + pat@.len()));
            out.append(rep);
            i = i + pv.len();
            assert(out@ + replaced(s@.skip(i as int), pat@, rep@) =~= before + replaced(
                tail,
                pat@,
                rep@,
            ));
        } else {
            proof {
            assert(tail.skip(1) =~= s@.skip(i + 1));
            if tail.len() >= pat@.len() {
                assert(tail.subrange(0, pat@.len() as int) =~= s@.subrange(
                    i as int,
                    i + pat@.len(),
                ));
                assert(replaced(tail, pat@, rep@) == seq![tail[0]] + replaced(
                    tail.skip(1),
                    pat@,
                    rep@,
                ));
            } else {
                assert(replaced(tail, pat@, rep@) == tail);
                assert(replaced(tail.skip(1), pat@, rep@) == tail.skip(1));
                assert(tail =~= seq![tail[0]] + tail.skip(1));
            }
            }
            push_char(&mut out, sv[i]);
            i = i + 1;
            assert(out@ + replaced(s@.skip(i as int), pat@, rep@) =~= before + replaced(
                tail,
                pat@,
                rep@,
            ));
        }
    }
    assert(s@.skip(i as int) =~= Seq::<char>::empty());
    assert(out@ + replaced(s@.skip(i as int), pat@, rep@) =~= out@);
    out
}

/// `s` without the run of `c` that it starts with.
pub fn trim_leading(s: &str, c: char) -> (r: String)
    ensures
        r@ == without_leading(s@, c),
{
    let sv = chars_of(s);
    let mut j: usize = 0;
    assert(s@.skip(0) =~= s@);
    while j < sv.len() && sv[j] == c
        invariant
            j <= sv@.len(),
            sv@ == s@,
            without_leading(s@, c) == without_leading(s@.skip(j as int), c),
        decreases sv.len() - j,
    {
        assert(s@.skip(j as int).skip(1) =~= s@.skip(j + 1));
        j = j + 1;
    }
    let mut out = String::new();
    push_tail(&mut out, &sv, j);
    assert(out@ =~= s@.skip(j as int));
    out
}

} // verus!
