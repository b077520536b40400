//! Character-level helpers shared by the parsers and validators: splitting,
//! trimming, prefix tests, substitution and joining, each with its meaning
//! stated over `Seq<char>`.

use vstd::prelude::*;

verus! {

/// `String::push` appends one character.
pub assume_specification[ String::push ](s: &mut String, ch: char)
    ensures
        final(s)@ == old(s)@.push(ch),
;

/// The Unicode `White_Space` property (what `char::is_whitespace`
/// answers): tab, line feed, vertical tab, form feed, carriage return,
/// space, U+0085, U+00A0, U+1680, U+2000 to U+200A, U+2028, U+2029,
/// U+202F, U+205F and U+3000.
pub open spec fn spec_is_whitespace(c: char) -> bool {
    let u = c as u32;
    (0x9 <= u && u <= 0xd) || u == 0x20 || u == 0x85 || u == 0xa0 || u == 0x1680 || (0x2000 <= u
        && u <= 0x200a) || u == 0x2028 || u == 0x2029 || u == 0x202f || u == 0x205f || u == 0x3000
}

/// Calls `char::is_whitespace`: the Unicode `White_Space` property of `c`.
#[verifier::external_body]
pub fn is_whitespace(c: char) -> (r: bool)
    ensures
        r == spec_is_whitespace(c),
{
    c.is_whitespace()
}

/// The characters of `s`, in order.
pub fn chars_of(s: &str) -> (v: Vec<char>)
    ensures
        v@ == s@,
{
    broadcast use vstd::string::group_string_axioms;

    let mut v: Vec<char> = Vec::new();
    for c in it: s.chars()
        invariant
            v.len() == it.index(),
            forall|j: int| 0 <= j < v.len() ==> v@[j] == it.seq()[j],
    {
        v.push(c);
    }
    assert(v@ =~= s@);
    v
}

/// A `String` holding exactly the characters of `v`.
pub fn string_of(v: &Vec<char>) -> (s: String)
    ensures
        s@ == v@,
{
    let mut s = String::new();
    let mut i: usize = 0;
    while i < v.len()
        invariant
            i <= v.len(),
            s@ == v@.take(i as int),
        decreases v.len() - i,
    {
        s.push(v[i]);
        assert(v@.take(i as int).push(v@[i as int]) =~= v@.take(i + 1));
        i = i + 1;
    }
    assert(v@.take(v.len() as int) =~= v@);
    s
}

/// An owned copy of `s`.
pub fn owned(s: &str) -> (r: String)
    ensures
        r@ == s@,
{
    s.to_owned()
}

/// Character-wise equality of two string slices.
pub fn str_eq(a: &str, b: &str) -> (r: bool)
    ensures
        r == (a@ == b@),
{
    let va = chars_of(a);
    let vb = chars_of(b);
    seq_eq(&va, &vb)
}

/// Element-wise equality of two character vectors.
pub fn seq_eq(a: &Vec<char>, b: &Vec<char>) -> (r: bool)
    ensures
        r == (a@ == b@),
{
    if a.len() != b.len() {
        return false;
    }
    let mut i: usize = 0;
    while i < a.len()
        invariant
            a.len() == b.len(),
            i <= a.len(),
            forall|j: int| 0 <= j < i ==> a@[j] == b@[j],
        decreases a.len() - i,
    {
        if a[i] != b[i] {
            return false;
        }
        i = i + 1;
    }
    assert(a@ =~= b@);
    true
}

// ---------- splitting ----------

/// The pieces of `s` between occurrences of `sep` (as `str::split` yields
/// them): always at least one piece, empty pieces kept.
pub open spec fn split_on(s: Seq<char>, sep: char) -> Seq<Seq<char>>
    decreases s.len(),
{
    if s.len() == 0 {
        seq![Seq::<char>::empty()]
    } else {
        let prev = split_on(s.drop_last(), sep);
        if s.last() == sep {
            prev.push(Seq::<char>::empty())
        } else {
            prev.update(prev.len() - 1, prev.last().push(s.last()))
        }
    }
}

pub proof fn lemma_split_on_nonempty(s: Seq<char>, sep: char)
    ensures
        split_on(s, sep).len() >= 1,
    decreases s.len(),
{
    if s.len() > 0 {
        lemma_split_on_nonempty(s.drop_last(), sep);
    }
}

/// Text without `sep` is a single piece.
pub proof fn lemma_split_on_no_sep(s: Seq<char>, sep: char)
    requires
        !s.contains(sep),
    ensures
        split_on(s, sep) == seq![s],
    decreases s.len(),
{
    if s.len() > 0 {
        assert(!s.drop_last().contains(sep)) by {
            if s.drop_last().contains(sep) {
                let j = choose|j: int| 0 <= j < s.drop_last().len() && s.drop_last()[j] == sep;
                assert(s[j] == sep);
            }
        }
        lemma_split_on_no_sep(s.drop_last(), sep);
        assert(s.last() != sep) by {
            assert(s[s.len() - 1] == s.last());
        }
        assert(s.drop_last().push(s.last()) =~= s);
    } else {
        assert(s =~= Seq::<char>::empty());
    }
}

/// Splitting at a separator joins the pieces of both sides.
pub proof fn lemma_split_on_concat(a: Seq<char>, b: Seq<char>, sep: char)
    ensures
        split_on(a + seq![sep] + b, sep) == split_on(a, sep) + split_on(b, sep),
    decreases b.len(),
{
    let s = a + seq![sep] + b;
    lemma_split_on_nonempty(a, sep);
    if b.len() == 0 {
        assert(s.drop_last() =~= a);
        assert(s.last() == sep);
        assert(split_on(b, sep) =~= seq![Seq::<char>::empty()]);
        assert(split_on(a, sep).push(Seq::<char>::empty()) =~= split_on(a, sep) + split_on(b, sep));
    } else {
        assert(s.drop_last() =~= a + seq![sep] + b.drop_last());
        assert(s.last() == b.last());
        lemma_split_on_concat(a, b.drop_last(), sep);
        lemma_split_on_nonempty(b.drop_last(), sep);
        let pa = split_on(a, sep);
        let pb = split_on(b.drop_last(), sep);
        if b.last() == sep {
            assert((pa + pb).push(Seq::<char>::empty()) =~= pa + pb.push(Seq::<char>::empty()));
        } else {
            let q = pa + pb;
            assert(q.last() == pb.last());
            assert(q.update(q.len() - 1, q.last().push(b.last())) =~= pa + pb.update(
                pb.len() - 1,
                pb.last().push(b.last()),
            ));
        }
    }
}

/// The pieces of `s` between occurrences of `sep`.
pub fn split_chars(s: &Vec<char>, sep: char) -> (parts: Vec<Vec<char>>)
    ensures
        parts.len() >= 1,
        parts@.map_values(|p: Vec<char>| p@) == split_on(s@, sep),
{
    let mut parts: Vec<Vec<char>> = Vec::new();
    let mut cur: Vec<char> = Vec::new();
    let mut i: usize = 0;
    proof {
        assert(s@.take(0) =~= Seq::<char>::empty());
    }
    while i < s.len()
        invariant
            i <= s.len(),
            parts@.map_values(|p: Vec<char>| p@).push(cur@) == split_on(s@.take(i as int), sep),
        decreases s.len() - i,
    {
        let c = s[i];
        proof {
            let t = s@.take(i + 1);
            assert(t.drop_last() =~= s@.take(i as int));
            assert(t.last() == c);
        }
        if c == sep {
            let ghost old_parts = parts@.map_values(|p: Vec<char>| p@);
            let done = cur;
            parts.push(done);
            cur = Vec::new();
            proof {
                assert(parts@.map_values(|p: Vec<char>| p@) =~= old_parts.push(done@));
                assert(parts@.map_values(|p: Vec<char>| p@).push(cur@) =~= old_parts.push(
                    done@,
                ).push(Seq::<char>::empty()));
            }
        } else {
            let ghost old_cur = cur@;
            cur.push(c);
            proof {
                let prev = parts@.map_values(|p: Vec<char>| p@).push(old_cur);
                assert(parts@.map_values(|p: Vec<char>| p@).push(cur@) =~= prev.update(
                    prev.len() - 1,
                    prev.last().push(c),
                ));
            }
        }
        i = i + 1;
    }
    let ghost before = parts@.map_values(|p: Vec<char>| p@);
    parts.push(cur);
    proof {
        assert(s@.take(s.len() as int) =~= s@);
        assert(parts@.map_values(|p: Vec<char>| p@) =~= before.push(cur@));
    }
    parts
}

// ---------- trimming ----------

/// `s` without leading characters for which `spec_is_whitespace` holds.
pub open spec fn trim_start_spec(s: Seq<char>) -> Seq<char>
    decreases s.len(),
{
    if s.len() > 0 && spec_is_whitespace(s[0]) {
        trim_start_spec(s.skip(1))
    } else {
        s
    }
}

/// `s` without trailing characters for which `spec_is_whitespace` holds.
pub open spec fn trim_end_spec(s: Seq<char>) -> Seq<char>
    decreases s.len(),
{
    if s.len() > 0 && spec_is_whitespace(s.last()) {
        trim_end_spec(s.drop_last())
    } else {
        s
    }
}

/// `s` without leading and trailing whitespace (what `str::trim` returns).
pub open spec fn trim_spec(s: Seq<char>) -> Seq<char> {
    trim_end_spec(trim_start_spec(s))
}

/// `s` without leading and trailing whitespace.
pub fn trim_chars(s: &Vec<char>) -> (r: Vec<char>)
    ensures
        r@ == trim_spec(s@),
{
    let mut lo: usize = 0;
    assert(s@.skip(0) =~= s@);
    while lo < s.len() && is_whitespace(s[lo])
        invariant
            lo <= s.len(),
            trim_start_spec(s@) == trim_start_spec(s@.skip(lo as int)),
        decreases s.len() - lo,
    {
        proof {
            assert(s@.skip(lo as int).skip(1) =~= s@.skip(lo + 1));
        }
        lo = lo + 1;
    }
    let mut hi: usize = s.len();
    proof {
        assert(trim_start_spec(s@) == s@.skip(lo as int));
        assert(s@.skip(lo as int) =~= s@.subrange(lo as int, hi as int));
    }
    while hi > lo && is_whitespace(s[hi - 1])
        invariant
            lo <= hi <= s.len(),
            trim_spec(s@) == trim_end_spec(s@.subrange(lo as int, hi as int)),
        decreases hi - lo,
    {
        proof {
            assert(s@.subrange(lo as int, hi as int).drop_last() =~= s@.subrange(
                lo as int,
                hi - 1,
            ));
        }
        hi = hi - 1;
    }
    let mut r: Vec<char> = Vec::new();
    let mut k: usize = lo;
    while k < hi
        invariant
            lo <= k <= hi <= s.len(),
            r@ == s@.subrange(lo as int, k as int),
        decreases hi - k,
    {
        r.push(s[k]);
        proof {
            assert(s@.subrange(lo as int, k as int).push(s@[k as int]) =~= s@.subrange(
                lo as int,
                k + 1,
            ));
        }
        k = k + 1;
    }
    r
}

// ---------- prefixes ----------

/// Whether `p` is a prefix of `s`.
pub open spec fn has_prefix(s: Seq<char>, p: Seq<char>) -> bool {
    p.len() <= s.len() && s.take(p.len() as int) == p
}

/// Whether `p` is a prefix of `s`.
pub fn starts_with(s: &Vec<char>, p: &Vec<char>) -> (r: bool)
    ensures
        r == has_prefix(s@, p@),
{
    if p.len() > s.len() {
        return false;
    }
    let mut i: usize = 0;
    while i < p.len()
        invariant
            p.len() <= s.len(),
            i <= p.len(),
            forall|j: int| 0 <= j < i ==> s@[j] == p@[j],
        decreases p.len() - i,
    {
        if s[i] != p[i] {
            assert(s@.take(p.len() as int)[i as int] != p@[i as int]);
            return false;
        }
        i = i + 1;
    }
    assert(s@.take(p.len() as int) =~= p@);
    true
}

/// The characters of `s` from index `from` on.
pub fn suffix_from(s: &Vec<char>, from: usize) -> (r: Vec<char>)
    requires
        from <= s.len(),
    ensures
        r@ == s@.skip(from as int),
{
    let mut r: Vec<char> = Vec::new();
    let mut k: usize = from;
    while k < s.len()
        invariant
            from <= k <= s.len(),
            r@ == s@.subrange(from as int, k as int),
        decreases s.len() - k,
    {
        r.push(s[k]);
        proof {
            assert(s@.subrange(from as int, k as int).push(s@[k as int]) =~= s@.subrange(
                from as int,
                k + 1,
            ));
        }
        k = k + 1;
    }
    assert(s@.subrange(from as int, s.len() as int) =~= s@.skip(from as int));
    r
}

/// `s` with the prefix `p` removed, when `p` is a prefix of it.
pub open spec fn strip_prefix_spec(s: Seq<char>, p: Seq<char>) -> Option<Seq<char>> {
    if has_prefix(s, p) {
        Some(s.skip(p.len() as int))
    } else {
        None
    }
}

/// `s` with the prefix `p` removed, when `p` is a prefix of it.
pub fn strip_prefix(s: &Vec<char>, p: &Vec<char>) -> (r: Option<Vec<char>>)
    ensures
        r matches Some(v) ==> strip_prefix_spec(s@, p@) == Some(v@),
        r is None ==> strip_prefix_spec(s@, p@) is None,
{
    if starts_with(s, p) {
        Some(suffix_from(s, p.len()))
    } else {
        None
    }
}

// ---------- concatenation ----------

/// `a` followed by `b`.
pub fn concat_chars(a: &Vec<char>, b: &Vec<char>) -> (r: Vec<char>)
    ensures
        r@ == a@ + b@,
{
    let mut r = a.clone();
    let mut k: usize = 0;
    proof {
        assert(r@ =~= a@);
    }
    while k < b.len()
        invariant
            k <= b.len(),
            r@ == a@ + b@.take(k as int),
        decreases b.len() - k,
    {
        r.push(b[k]);
        proof {
            assert(a@ + b@.take(k as int).push(b@[k as int]) =~= a@ + b@.take(k + 1));
        }
        k = k + 1;
    }
    assert(b@.take(b.len() as int) =~= b@);
    r
}

/// The characters of `a` followed by those of `b`, as a `String`.
pub fn concat_str(a: &str, b: &str) -> (r: String)
    ensures
        r@ == a@ + b@,
{
    let va = chars_of(a);
    let vb = chars_of(b);
    let v = concat_chars(&va, &vb);
    string_of(&v)
}

// ---------- substitution ----------

/// Every non-overlapping occurrence of `needle` in `s`, scanning from the
/// left, replaced by `with` (what `str::replace` does for a non-empty needle).
pub open spec fn replace_spec(s: Seq<char>, needle: Seq<char>, with: Seq<char>) -> Seq<char>
    recommends
        needle.len() > 0,
    decreases s.len(),
{
    if s.len() == 0 || needle.len() == 0 {
        s
    } else if has_prefix(s, needle) {
        with + replace_spec(s.skip(needle.len() as int), needle, with)
    } else {
        seq![s[0]] + replace_spec(s.skip(1), needle, with)
    }
}

/// Replaces every non-overlapping occurrence of `needle` (non-empty) by `with`.
pub fn replace_chars(s: &Vec<char>, needle: &Vec<char>, with: &Vec<char>) -> (r: Vec<char>)
    requires
        needle.len() > 0,
    ensures
        r@ == replace_spec(s@, needle@, with@),
{
    let mut rest = s.clone();
    let mut out: Vec<char> = Vec::new();
    proof {
        assert(rest@ =~= s@);
        assert(replace_spec(s@, needle@, with@) =~= out@ + replace_spec(rest@, needle@, with@));
    }
    while rest.len() > 0
        invariant
            needle.len() > 0,
            replace_spec(s@, needle@, with@) == out@ + replace_spec(rest@, needle@, with@),
        decreases rest.len(),
    {
        if starts_with(&rest, needle) {
            let ghost old_out = out@;
            let ghost old_rest = rest@;
            out = concat_chars(&out, with);
            rest = suffix_from(&rest, needle.len());
            proof {
                assert(replace_spec(old_rest, needle@, with@) == with@ + replace_spec(
                    rest@,
                    needle@,
                    with@,
                ));
                assert(old_out + (with@ + replace_spec(rest@, needle@, with@)) =~= out@
                    + replace_spec(rest@, needle@, with@));
            }
        } else {
            let ghost old_out = out@;
            let ghost old_rest = rest@;
            let c = rest[0];
            out.push(c);
            rest = suffix_from(&rest, 1);
            proof {
                assert(replace_spec(old_rest, needle@, with@) == seq![c] + replace_spec(
                    rest@,
                    needle@,
                    with@,
                ));
                assert(old_out + (seq![c] + replace_spec(rest@, needle@, with@)) =~= out@
                    + replace_spec(rest@, needle@, with@));
            }
        }
    }
    assert(out@ + replace_spec(rest@, needle@, with@) =~= out@);
    out
}

// ---------- ASCII case ----------

/// ASCII lowercase of one character; other characters unchanged.
pub open spec fn ascii_lower(c: char) -> char {
    if 'A' <= c && c <= 'Z' {
        ((c as u32) + 32) as char
    } else {
        c
    }
}

pub fn to_ascii_lower(c: char) -> (r: char)
    ensures
        r == ascii_lower(c),
{
    if 'A' <= c && c <= 'Z' {
        ((c as u8) + 32) as char
    } else {
        c
    }
}

/// Equality up to ASCII case (what `str::eq_ignore_ascii_case` decides).
pub open spec fn eq_ignore_ascii_case_spec(a: Seq<char>, b: Seq<char>) -> bool {
    a.len() == b.len() && forall|i: int| 0 <= i < a.len() ==> ascii_lower(a[i]) == ascii_lower(b[i])
}

pub fn eq_ignore_ascii_case(a: &Vec<char>, b: &Vec<char>) -> (r: bool)
    ensures
        r == eq_ignore_ascii_case_spec(a@, b@),
{
    if a.len() != b.len() {
        return false;
    }
    let mut i: usize = 0;
    while i < a.len()
        invariant
            a.len() == b.len(),
            i <= a.len(),
            forall|j: int| 0 <= j < i ==> ascii_lower(a@[j]) == ascii_lower(b@[j]),
        decreases a.len() - i,
    {
        if to_ascii_lower(a[i]) != to_ascii_lower(b[i]) {
            return false;
        }
        i = i + 1;
    }
    true
}

/// Whether `c` is an ASCII letter or digit.
pub open spec fn is_ascii_alnum(c: char) -> bool {
    ('a' <= c && c <= 'z') || ('A' <= c && c <= 'Z') || ('0' <= c && c <= '9')
}

pub fn ascii_alnum(c: char) -> (r: bool)
    ensures
        r == is_ascii_alnum(c),
{
    ('a' <= c && c <= 'z') || ('A' <= c && c <= 'Z') || ('0' <= c && c <= '9')
}

} // verus!

verus! {

// ---------- joining ----------

/// The pieces of `ps` that are not empty, in order.
pub open spec fn nonempty_pieces(ps: Seq<Seq<char>>) -> Seq<Seq<char>>
    decreases ps.len(),
{
    if ps.len() == 0 {
        Seq::empty()
    } else {
        let prev = nonempty_pieces(ps.drop_last());
        if ps.last().len() > 0 {
            prev.push(ps.last())
        } else {
            prev
        }
    }
}

/// Every character of every piece of `s` split at `sep` is a character of
/// `s` other than `sep`, so a property of all characters of `s` other than
/// `sep` holds of all characters of the pieces.
pub proof fn lemma_split_pieces_chars(s: Seq<char>, sep: char, good: spec_fn(char) -> bool)
    requires
        forall|k: int| 0 <= k < s.len() && s[k] != sep ==> good(#[trigger] s[k]),
    ensures
        forall|i: int, j: int|
            0 <= i < split_on(s, sep).len() && 0 <= j < split_on(s, sep)[i].len() ==> #[trigger] split_on(
                s,
                sep,
            )[i][j] != sep && good(split_on(s, sep)[i][j]),
    decreases s.len(),
{
    if s.len() > 0 {
        let d = s.drop_last();
        assert forall|k: int| 0 <= k < d.len() && d[k] != sep implies good(#[trigger] d[k]) by {
            assert(d[k] == s[k]);
        }
        lemma_split_pieces_chars(d, sep, good);
        lemma_split_on_nonempty(d, sep);
        let prev = split_on(d, sep);
        if s.last() != sep {
            assert(s.last() == s[s.len() - 1]);
            let q = prev.update(prev.len() - 1, prev.last().push(s.last()));
            assert forall|i: int, j: int| 0 <= i < q.len() && 0 <= j < q[i].len() implies #[trigger] q[i][j]
                != sep && good(q[i][j]) by {
                if i == prev.len() - 1 {
                    if j < prev.last().len() {
                        assert(q[i][j] == prev[i][j]);
                    }
                } else {
                    assert(q[i] == prev[i]);
                }
            }
        } else {
            let q = prev.push(Seq::<char>::empty());
            assert forall|i: int, j: int| 0 <= i < q.len() && 0 <= j < q[i].len() implies #[trigger] q[i][j]
                != sep && good(q[i][j]) by {
                assert(q[i] == prev[i]);
            }
        }
    }
}

/// Text made of `sep` alone splits into empty pieces.
pub proof fn lemma_split_all_sep(s: Seq<char>, sep: char)
    requires
        forall|k: int| 0 <= k < s.len() ==> #[trigger] s[k] == sep,
    ensures
        forall|i: int| 0 <= i < split_on(s, sep).len() ==> #[trigger] split_on(s, sep)[i].len() == 0,
    decreases s.len(),
{
    if s.len() > 0 {
        let d = s.drop_last();
        assert forall|k: int| 0 <= k < d.len() implies #[trigger] d[k] == sep by {
            assert(d[k] == s[k]);
        }
        lemma_split_all_sep(d, sep);
        assert(s.last() == s[s.len() - 1]);
        let prev = split_on(d, sep);
        let q = prev.push(Seq::<char>::empty());
        assert(split_on(s, sep) == q);
        assert forall|i: int| 0 <= i < q.len() implies #[trigger] q[i].len() == 0 by {
            if i < prev.len() {
                assert(q[i] == prev[i]);
            }
        }
    }
}

/// The non-empty pieces are non-empty, and each is one of the pieces.
pub proof fn lemma_nonempty_pieces_members(ps: Seq<Seq<char>>)
    ensures
        forall|i: int|
            0 <= i < nonempty_pieces(ps).len() ==> #[trigger] nonempty_pieces(ps)[i].len() > 0
                && exists|j: int| 0 <= j < ps.len() && ps[j] == nonempty_pieces(ps)[i],
        (forall|i: int| 0 <= i < ps.len() ==> #[trigger] ps[i].len() == 0) ==> nonempty_pieces(
            ps,
        ).len() == 0,
    decreases ps.len(),
{
    if ps.len() > 0 {
        let d = ps.drop_last();
        lemma_nonempty_pieces_members(d);
        let prev = nonempty_pieces(d);
        assert forall|i: int| 0 <= i < nonempty_pieces(ps).len() implies #[trigger] nonempty_pieces(
            ps,
        )[i].len() > 0 && exists|j: int| 0 <= j < ps.len() && ps[j] == nonempty_pieces(ps)[i] by {
            if i < prev.len() {
                assert(nonempty_pieces(ps)[i] == prev[i]);
                let j = choose|j: int| 0 <= j < d.len() && d[j] == prev[i];
                assert(ps[j] == d[j]);
            } else {
                assert(nonempty_pieces(ps)[i] == ps.last());
                assert(ps[ps.len() - 1] == ps.last());
            }
        }
        if forall|i: int| 0 <= i < ps.len() ==> #[trigger] ps[i].len() == 0 {
            assert forall|i: int| 0 <= i < d.len() implies #[trigger] d[i].len() == 0 by {
                assert(d[i] == ps[i]);
            }
            assert(ps[ps.len() - 1].len() == 0);
        }
    }
}

/// Non-empty pieces without `sep`, joined by `sep`: the text neither starts
/// nor ends with `sep`, holds no two `sep` in a row, and its other
/// characters are characters of the pieces.
pub proof fn lemma_join_form(ps: Seq<Seq<char>>, sep: char, good: spec_fn(char) -> bool)
    requires
        forall|i: int| 0 <= i < ps.len() ==> #[trigger] ps[i].len() > 0,
        forall|i: int, j: int|
            0 <= i < ps.len() && 0 <= j < ps[i].len() ==> #[trigger] ps[i][j] != sep && good(ps[i][j]),
    ensures
        join_with(ps, sep).len() > 0 ==> join_with(ps, sep)[0] != sep && join_with(ps, sep).last()
            != sep,
        forall|k: int|
            0 <= k < join_with(ps, sep).len() ==> #[trigger] join_with(ps, sep)[k] == sep || good(
                join_with(ps, sep)[k],
            ),
        forall|k: int|
            0 <= k < join_with(ps, sep).len() - 1 ==> !(#[trigger] join_with(ps, sep)[k] == sep
                && join_with(ps, sep)[k + 1] == sep),
    decreases ps.len(),
{
    let r = join_with(ps, sep);
    if ps.len() == 1 {
        assert(r == ps[0]);
        assert(ps[0][0] != sep);
        assert(ps[0][ps[0].len() - 1] != sep);
        assert forall|k: int| 0 <= k < r.len() implies #[trigger] r[k] == sep || good(r[k]) by {
            assert(ps[0][k] != sep);
        }
    } else if ps.len() > 1 {
        let d = ps.drop_last();
        assert forall|i: int| 0 <= i < d.len() implies #[trigger] d[i].len() > 0 by {
            assert(d[i] == ps[i]);
        }
        assert forall|i: int, j: int| 0 <= i < d.len() && 0 <= j < d[i].len() implies #[trigger] d[i][j]
            != sep && good(d[i][j]) by {
            assert(d[i] == ps[i]);
        }
        lemma_join_form(d, sep, good);
        let a = join_with(d, sep);
        let l = ps.last();
        assert(l == ps[ps.len() - 1]);
        assert(l.len() > 0);
        assert(a.len() > 0) by {
            lemma_join_nonempty(d, sep);
        }
        assert(r == a + seq![sep] + l);
        assert(r[0] == a[0]);
        assert(r.last() == l[l.len() - 1]);
        assert forall|k: int| 0 <= k < r.len() implies #[trigger] r[k] == sep || good(r[k]) by {
            if k < a.len() {
                assert(r[k] == a[k]);
            } else if k > a.len() {
                assert(r[k] == l[k - a.len() - 1]);
            }
        }
        assert forall|k: int| 0 <= k < r.len() - 1 implies !(#[trigger] r[k] == sep && r[k + 1] == sep) by {
            if k + 1 < a.len() {
                assert(r[k] == a[k] && r[k + 1] == a[k + 1]);
            } else if k + 1 == a.len() {
                assert(r[k] == a.last());
            } else if k == a.len() {
                assert(r[k + 1] == l[0]);
            } else {
                assert(r[k] == l[k - a.len() - 1]);
            }
        }
    }
}

/// Splitting pieces joined by a separator that none of them holds gives the
/// pieces back.
pub proof fn lemma_split_join(ps: Seq<Seq<char>>, sep: char)
    requires
        ps.len() > 0,
        forall|i: int| 0 <= i < ps.len() ==> !(#[trigger] ps[i]).contains(sep),
    ensures
        split_on(join_with(ps, sep), sep) == ps,
    decreases ps.len(),
{
    if ps.len() == 1 {
        lemma_split_on_no_sep(ps[0], sep);
        assert(seq![ps[0]] =~= ps);
    } else {
        let d = ps.drop_last();
        assert forall|i: int| 0 <= i < d.len() implies !(#[trigger] d[i]).contains(sep) by {
            assert(d[i] == ps[i]);
        }
        lemma_split_join(d, sep);
        let l = ps.last();
        assert(l == ps[ps.len() - 1]);
        lemma_split_on_no_sep(l, sep);
        lemma_split_on_concat(join_with(d, sep), l, sep);
        assert(d + seq![l] =~= ps);
    }
}

/// Text whose trimmed form is empty holds whitespace alone.
pub proof fn lemma_trim_blank(s: Seq<char>)
    requires
        trim_spec(s).len() == 0,
    ensures
        forall|k: int| 0 <= k < s.len() ==> spec_is_whitespace(#[trigger] s[k]),
{
    let m = lemma_trim_start_shape(s);
    let t = s.skip(m);
    let n = lemma_trim_end_shape(t);
    assert(n == 0);
    assert forall|k: int| 0 <= k < s.len() implies spec_is_whitespace(#[trigger] s[k]) by {
        if k >= m {
            assert(t[k - m] == s[k]);
        }
    }
}

/// `trim_start_spec(s)` drops a leading run of whitespace.
proof fn lemma_trim_start_shape(s: Seq<char>) -> (m: int)
    ensures
        0 <= m <= s.len(),
        trim_start_spec(s) == s.skip(m),
        forall|k: int| 0 <= k < m ==> spec_is_whitespace(#[trigger] s[k]),
    decreases s.len(),
{
    if s.len() > 0 && spec_is_whitespace(s[0]) {
        let r = lemma_trim_start_shape(s.skip(1));
        assert(s.skip(1).skip(r) =~= s.skip(r + 1));
        assert forall|k: int| 0 <= k < r + 1 implies spec_is_whitespace(#[trigger] s[k]) by {
            if k > 0 {
                assert(s.skip(1)[k - 1] == s[k]);
            }
        }
        r + 1
    } else {
        assert(s.skip(0) =~= s);
        0
    }
}

/// `trim_end_spec(s)` drops a trailing run of whitespace.
proof fn lemma_trim_end_shape(s: Seq<char>) -> (n: int)
    ensures
        0 <= n <= s.len(),
        trim_end_spec(s) == s.take(n),
        forall|k: int| n <= k < s.len() ==> spec_is_whitespace(#[trigger] s[k]),
    decreases s.len(),
{
    if s.len() > 0 && spec_is_whitespace(s.last()) {
        let d = s.drop_last();
        let r = lemma_trim_end_shape(d);
        assert(d.take(r) =~= s.take(r));
        assert forall|k: int| r <= k < s.len() implies spec_is_whitespace(#[trigger] s[k]) by {
            if k < s.len() - 1 {
                assert(d[k] == s[k]);
            }
        }
        r
    } else {
        assert(s.take(s.len() as int) =~= s);
        s.len() as int
    }
}

/// Joining at least one non-empty piece gives non-empty text.
pub proof fn lemma_join_nonempty(ps: Seq<Seq<char>>, sep: char)
    requires
        ps.len() > 0,
        forall|i: int| 0 <= i < ps.len() ==> #[trigger] ps[i].len() > 0,
    ensures
        join_with(ps, sep).len() > 0,
{
    if ps.len() == 1 {
        assert(ps[0].len() > 0);
    } else {
        assert(ps[ps.len() - 1].len() > 0);
    }
}

/// The pieces of `ps` with `sep` between consecutive ones (`[..].join(sep)`).
pub open spec fn join_with(ps: Seq<Seq<char>>, sep: char) -> Seq<char>
    decreases ps.len(),
{
    if ps.len() == 0 {
        Seq::empty()
    } else if ps.len() == 1 {
        ps[0]
    } else {
        join_with(ps.drop_last(), sep) + seq![sep] + ps.last()
    }
}

/// The non-empty pieces of `parts`, joined by `sep`.
pub fn join_nonempty(parts: &Vec<Vec<char>>, sep: char) -> (r: Vec<char>)
    ensures
        r@ == join_with(nonempty_pieces(parts@.map_values(|p: Vec<char>| p@)), sep),
{
    let ghost ps = parts@.map_values(|p: Vec<char>| p@);
    let mut out: Vec<char> = Vec::new();
    let mut any = false;
    let mut i: usize = 0;
    proof {
        assert(ps.take(0) =~= Seq::<Seq<char>>::empty());
    }
    while i < parts.len()
        invariant
            i <= parts.len(),
            ps == parts@.map_values(|p: Vec<char>| p@),
            any == (nonempty_pieces(ps.take(i as int)).len() > 0),
            out@ == join_with(nonempty_pieces(ps.take(i as int)), sep),
        decreases parts.len() - i,
    {
        proof {
            assert(ps.take(i + 1).drop_last() =~= ps.take(i as int));
            assert(ps.take(i + 1).last() == parts@[i as int]@);
        }
        if parts[i].len() > 0 {
            if any {
                out.push(sep);
            }
            let ghost before = out@;
            out = concat_chars(&out, &parts[i]);
            any = true;
            proof {
                let prev = nonempty_pieces(ps.take(i as int));
                let now = prev.push(parts@[i as int]@);
                assert(nonempty_pieces(ps.take(i + 1)) == now);
                if prev.len() > 0 {
                    assert(now.drop_last() =~= prev);
                } else {
                    assert(now.len() == 1);
                }
            }
        }
        i = i + 1;
    }
    proof {
        assert(ps.take(parts.len() as int) =~= ps);
    }
    out
}

} // verus!

verus! {

// ---------- association lists ----------

/// The value paired with the first occurrence of key `k` in `ps`.
pub open spec fn assoc<V>(ps: Seq<(Seq<char>, V)>, k: Seq<char>) -> Option<V>
    decreases ps.len(),
{
    if ps.len() == 0 {
        None
    } else if ps[0].0 == k {
        Some(ps[0].1)
    } else {
        assoc(ps.skip(1), k)
    }
}

pub proof fn lemma_assoc_step<V>(ps: Seq<(Seq<char>, V)>, i: int, k: Seq<char>)
    requires
        0 <= i < ps.len(),
        ps[i].0 != k,
    ensures
        assoc(ps.skip(i), k) == assoc(ps.skip(i + 1), k),
{
    assert(ps.skip(i)[0] == ps[i]);
    assert(ps.skip(i).skip(1) =~= ps.skip(i + 1));
}

pub proof fn lemma_assoc_hit<V>(ps: Seq<(Seq<char>, V)>, i: int, k: Seq<char>)
    requires
        0 <= i < ps.len(),
        ps[i].0 == k,
    ensures
        assoc(ps.skip(i), k) == Some(ps[i].1),
{
    assert(ps.skip(i)[0] == ps[i]);
}

pub proof fn lemma_assoc_end<V>(ps: Seq<(Seq<char>, V)>, k: Seq<char>)
    ensures
        assoc(ps.skip(ps.len() as int), k) is None,
{
    assert(ps.skip(ps.len() as int).len() == 0);
}

// ---------- first piece ----------

/// The characters of `s` before the first `c` (all of `s` when none).
pub open spec fn prefix_before(s: Seq<char>, c: char) -> Seq<char>
    decreases s.len(),
{
    if s.len() == 0 || s[0] == c {
        Seq::empty()
    } else {
        seq![s[0]] + prefix_before(s.skip(1), c)
    }
}

/// The characters before the first `c`, and whether a `c` was found.
pub fn take_until(s: &Vec<char>, c: char) -> (r: (Vec<char>, bool))
    ensures
        r.0@ == prefix_before(s@, c),
        r.1 == (r.0.len() < s.len()),
        r.1 ==> s@[r.0.len() as int] == c,
        r.0@ == s@.take(r.0.len() as int),
{
    let mut out: Vec<char> = Vec::new();
    let mut i: usize = 0;
    proof {
        assert(s@.skip(0) =~= s@);
    }
    while i < s.len() && s[i] != c
        invariant
            i <= s.len(),
            out@ == s@.take(i as int),
            prefix_before(s@, c) == out@ + prefix_before(s@.skip(i as int), c),
        decreases s.len() - i,
    {
        proof {
            let t = s@.skip(i as int);
            assert(t[0] == s@[i as int]);
            assert(t.skip(1) =~= s@.skip(i + 1));
            assert(out@ + (seq![s@[i as int]] + prefix_before(s@.skip(i + 1), c)) =~= out@.push(
                s@[i as int],
            ) + prefix_before(s@.skip(i + 1), c));
            assert(s@.take(i as int).push(s@[i as int]) =~= s@.take(i + 1));
        }
        out.push(s[i]);
        i = i + 1;
    }
    proof {
        assert(prefix_before(s@.skip(i as int), c).len() == 0);
        assert(out@ + prefix_before(s@.skip(i as int), c) =~= out@);
    }
    let found = i < s.len();
    (out, found)
}

} // verus!

verus! {

// ---------- numbers ----------

/// The decimal digit for a value below 10.
pub open spec fn digit_char(d: nat) -> char {
    (48 + d) as char
}

/// The decimal text of `n`.
pub open spec fn spec_decimal(n: nat) -> Seq<char>
    decreases n,
{
    if n < 10 {
        seq![digit_char(n)]
    } else {
        spec_decimal(n / 10).push(digit_char(n % 10))
    }
}

/// The decimal text of `n`.
pub fn decimal(n: u64) -> (r: Vec<char>)
    ensures
        r@ == spec_decimal(n as nat),
    decreases n,
{
    let d: u8 = (n % 10) as u8;
    let c = (48u8 + d) as char;
    if n < 10 {
        let mut v: Vec<char> = Vec::new();
        v.push(c);
        v
    } else {
        let mut v = decimal(n / 10);
        v.push(c);
        v
    }
}

/// The decimal text of an integer, with `-` before a negative one (what
/// `i64::to_string` writes).
pub open spec fn spec_int_text(n: int) -> Seq<char> {
    if n < 0 {
        seq!['-'] + spec_decimal((-n) as nat)
    } else {
        spec_decimal(n as nat)
    }
}

/// The decimal text of `n`.
pub fn int_text(n: i64) -> (r: String)
    ensures
        r@ == spec_int_text(n as int),
{
    if n < 0 {
        let magnitude: u64 = ((-(n + 1)) as u64) + 1;
        let digits = decimal(magnitude);
        let mut minus: Vec<char> = Vec::new();
        minus.push('-');
        let all = concat_chars(&minus, &digits);
        string_of(&all)
    } else {
        string_of(&decimal(n as u64))
    }
}

} // verus!
