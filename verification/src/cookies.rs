//! Reading request credentials out of header values: a named cookie from a
//! `Cookie` header, and the token of an `Authorization: Bearer` header.

use vstd::prelude::*;
use crate::text::{
    chars_of, concat_chars, has_prefix, lemma_split_on_concat, lemma_split_on_no_sep, split_chars,
    split_on, spec_is_whitespace, strip_prefix, strip_prefix_spec, trim_chars, trim_end_spec,
    trim_spec, trim_start_spec,
};

verus! {

/// The value after `prefix` in the first piece (trimmed) that starts with it.
pub open spec fn spec_cookie_in(ps: Seq<Seq<char>>, prefix: Seq<char>) -> Option<Seq<char>>
    decreases ps.len(),
{
    if ps.len() == 0 {
        None
    } else {
        match strip_prefix_spec(trim_spec(ps[0]), prefix) {
            Some(rest) => Some(rest),
            None => spec_cookie_in(ps.skip(1), prefix),
        }
    }
}

/// The value of cookie `name` in a `Cookie` header (`a=1; name=v; b=2`):
/// the first `;`-separated, trimmed pair that starts with `name=`.
pub open spec fn spec_cookie_value(header: Seq<char>, name: Seq<char>) -> Option<Seq<char>> {
    spec_cookie_in(split_on(header, ';'), name + seq!['='])
}

/// The value of cookie `name` in the `Cookie` header value `header`.
pub fn cookie_value(header: &str, name: &str) -> (r: Option<Vec<char>>)
    ensures
        r matches Some(v) ==> spec_cookie_value(header@, name@) == Some(v@),
        r is None ==> spec_cookie_value(header@, name@) is None,
{
    let hv = chars_of(header);
    let nv = chars_of(name);
    let mut eq: Vec<char> = Vec::new();
    eq.push('=');
    let prefix = concat_chars(&nv, &eq);
    assert(prefix@ =~= name@ + seq!['=']);
    let parts = split_chars(&hv, ';');
    let ghost ps = parts@.map_values(|p: Vec<char>| p@);
    let mut i: usize = 0;
    proof {
        assert(ps.skip(0) =~= ps);
    }
    while i < parts.len()
        invariant
            i <= parts.len(),
            ps == parts@.map_values(|p: Vec<char>| p@),
            ps == split_on(header@, ';'),
            prefix@ == name@ + seq!['='],
            spec_cookie_value(header@, name@) == spec_cookie_in(ps.skip(i as int), prefix@),
        decreases parts.len() - i,
    {
        proof {
            assert(ps.skip(i as int)[0] == parts@[i as int]@);
            assert(ps.skip(i as int).skip(1) =~= ps.skip(i + 1));
        }
        let kv = trim_chars(&parts[i]);
        if let Some(rest) = strip_prefix(&kv, &prefix) {
            return Some(rest);
        }
        i = i + 1;
    }
    None
}

// ---------- what a browser sends back ----------

/// One cookie as a browser sends it: `name=value`.
pub open spec fn pair_text(p: (Seq<char>, Seq<char>)) -> Seq<char> {
    p.0 + seq!['='] + p.1
}

/// The `Cookie` header a browser sends for the cookies `pairs`, in order:
/// their `name=value` texts joined by `"; "`.
pub open spec fn cookie_header(pairs: Seq<(Seq<char>, Seq<char>)>) -> Seq<char>
    decreases pairs.len(),
{
    if pairs.len() <= 1 {
        if pairs.len() == 0 {
            Seq::empty()
        } else {
            pair_text(pairs[0])
        }
    } else {
        cookie_header(pairs.drop_last()) + seq![';'] + (seq![' '] + pair_text(pairs.last()))
    }
}

/// The value of the first cookie called `name` among `pairs`.
pub open spec fn first_value(pairs: Seq<(Seq<char>, Seq<char>)>, name: Seq<char>) -> Option<
    Seq<char>,
>
    decreases pairs.len(),
{
    if pairs.len() == 0 {
        None
    } else if pairs[0].0 == name {
        Some(pairs[0].1)
    } else {
        first_value(pairs.skip(1), name)
    }
}

/// A cookie that a server can set and read back: a non-empty name without
/// `;`, `=` or leading whitespace, and a value without `;` or trailing
/// whitespace.
pub open spec fn cookie_ok(p: (Seq<char>, Seq<char>)) -> bool {
    &&& p.0.len() > 0
    &&& !p.0.contains(';')
    &&& !p.0.contains('=')
    &&& !spec_is_whitespace(p.0[0])
    &&& !p.1.contains(';')
    &&& (p.1.len() > 0 ==> !spec_is_whitespace(p.1.last()))
}

proof fn lemma_pair_text_no_semicolon(p: (Seq<char>, Seq<char>))
    requires
        cookie_ok(p),
    ensures
        !pair_text(p).contains(';'),
        !(seq![' '] + pair_text(p)).contains(';'),
{
    let t = pair_text(p);
    assert forall|j: int| 0 <= j < t.len() implies t[j] != ';' by {
        if j < p.0.len() {
            assert(t[j] == p.0[j]);
            assert(!p.0.contains(';'));
            if t[j] == ';' {
                assert(p.0.contains(';'));
            }
        } else if j > p.0.len() {
            assert(t[j] == p.1[j - p.0.len() - 1]);
            if t[j] == ';' {
                assert(p.1.contains(';'));
            }
        }
    }
    let u = seq![' '] + t;
    assert forall|j: int| 0 <= j < u.len() implies u[j] != ';' by {
        if j > 0 {
            assert(u[j] == t[j - 1]);
        }
    }
}

/// The pieces of a browser's `Cookie` header split at `;`: the first
/// cookie's text, then each further one after a space.
proof fn lemma_header_pieces(pairs: Seq<(Seq<char>, Seq<char>)>)
    requires
        pairs.len() >= 1,
        forall|i: int| 0 <= i < pairs.len() ==> cookie_ok(#[trigger] pairs[i]),
    ensures
        split_on(cookie_header(pairs), ';').len() == pairs.len(),
        split_on(cookie_header(pairs), ';')[0] == pair_text(pairs[0]),
        forall|i: int|
            1 <= i < pairs.len() ==> #[trigger] split_on(cookie_header(pairs), ';')[i] == seq![' ']
                + pair_text(pairs[i]),
    decreases pairs.len(),
{
    if pairs.len() == 1 {
        lemma_pair_text_no_semicolon(pairs[0]);
        lemma_split_on_no_sep(pair_text(pairs[0]), ';');
    } else {
        let init = pairs.drop_last();
        assert forall|i: int| 0 <= i < init.len() implies cookie_ok(#[trigger] init[i]) by {
            assert(init[i] == pairs[i]);
        }
        lemma_header_pieces(init);
        let last = seq![' '] + pair_text(pairs.last());
        assert(cookie_ok(pairs[pairs.len() - 1]));
        lemma_pair_text_no_semicolon(pairs.last());
        lemma_split_on_no_sep(last, ';');
        lemma_split_on_concat(cookie_header(init), last, ';');
        let ps = split_on(cookie_header(pairs), ';');
        assert(ps == split_on(cookie_header(init), ';') + seq![last]);
        assert forall|i: int| 1 <= i < pairs.len() implies #[trigger] ps[i] == seq![' '] + pair_text(
            pairs[i],
        ) by {
            if i < init.len() {
                assert(ps[i] == split_on(cookie_header(init), ';')[i]);
                assert(init[i] == pairs[i]);
            }
        }
    }
}

/// A trimmed piece of the header is the cookie's own text.
proof fn lemma_piece_trim(p: (Seq<char>, Seq<char>))
    requires
        cookie_ok(p),
    ensures
        trim_spec(pair_text(p)) == pair_text(p),
        trim_spec(seq![' '] + pair_text(p)) == pair_text(p),
{
    let t = pair_text(p);
    assert(t[0] == p.0[0]);
    assert(trim_start_spec(t) == t);
    let u = seq![' '] + t;
    assert(spec_is_whitespace(u[0]));
    assert(u.skip(1) =~= t);
    assert(trim_start_spec(u) == trim_start_spec(t));
    if p.1.len() > 0 {
        assert(t.last() == p.1.last());
    } else {
        assert(t.last() == '=');
    }
    assert(trim_end_spec(t) == t);
}

/// A cookie's text starts with `name=` exactly when it is the cookie called
/// `name`; the rest is then its value.
proof fn lemma_piece_strip(p: (Seq<char>, Seq<char>), name: Seq<char>)
    requires
        cookie_ok(p),
        !name.contains('='),
    ensures
        strip_prefix_spec(pair_text(p), name + seq!['=']) == if p.0 == name {
            Some(p.1)
        } else {
            None::<Seq<char>>
        },
{
    let t = pair_text(p);
    let pre = name + seq!['='];
    if p.0 == name {
        assert(t.take(pre.len() as int) =~= pre);
        assert(t.skip(pre.len() as int) =~= p.1);
    } else if has_prefix(t, pre) {
        if name.len() < p.0.len() {
            assert(t[name.len() as int] == pre[name.len() as int]);
            assert(p.0[name.len() as int] == '=');
            assert(p.0.contains('='));
        } else if name.len() > p.0.len() {
            assert(t[p.0.len() as int] == pre[p.0.len() as int]);
            assert(name[p.0.len() as int] == '=');
            assert(name.contains('='));
        } else {
            assert forall|j: int| 0 <= j < name.len() implies name[j] == p.0[j] by {
                assert(t[j] == pre[j]);
            }
            assert(name =~= p.0);
        }
    }
}

proof fn lemma_scan(
    ps: Seq<Seq<char>>,
    pairs: Seq<(Seq<char>, Seq<char>)>,
    name: Seq<char>,
)
    requires
        ps.len() == pairs.len(),
        !name.contains('='),
        forall|i: int| 0 <= i < pairs.len() ==> cookie_ok(#[trigger] pairs[i]),
        forall|i: int| 0 <= i < ps.len() ==> trim_spec(#[trigger] ps[i]) == pair_text(pairs[i]),
    ensures
        spec_cookie_in(ps, name + seq!['=']) == first_value(pairs, name),
    decreases ps.len(),
{
    if ps.len() > 0 {
        assert(cookie_ok(pairs[0]));
        assert(trim_spec(ps[0]) == pair_text(pairs[0]));
        lemma_piece_strip(pairs[0], name);
        let ps1 = ps.skip(1);
        let pairs1 = pairs.skip(1);
        assert forall|i: int| 0 <= i < pairs1.len() implies cookie_ok(#[trigger] pairs1[i]) by {
            assert(pairs1[i] == pairs[i + 1]);
        }
        assert forall|i: int| 0 <= i < ps1.len() implies trim_spec(#[trigger] ps1[i]) == pair_text(
            pairs1[i],
        ) by {
            assert(ps1[i] == ps[i + 1]);
            assert(pairs1[i] == pairs[i + 1]);
        }
        lemma_scan(ps1, pairs1, name);
    }
}

/// What a server sets is read back: in the `Cookie` header a browser sends
/// for `pairs`, the cookie `name` reads as the value of the first cookie so
/// called (none when there is none).
pub proof fn law_cookie_read_back(pairs: Seq<(Seq<char>, Seq<char>)>, name: Seq<char>)
    requires
        pairs.len() >= 1,
        forall|i: int| 0 <= i < pairs.len() ==> cookie_ok(#[trigger] pairs[i]),
        !name.contains('='),
    ensures
        spec_cookie_value(cookie_header(pairs), name) == first_value(pairs, name),
{
    lemma_header_pieces(pairs);
    let ps = split_on(cookie_header(pairs), ';');
    assert forall|i: int| 0 <= i < ps.len() implies trim_spec(#[trigger] ps[i]) == pair_text(
        pairs[i],
    ) by {
        assert(cookie_ok(pairs[i]));
        lemma_piece_trim(pairs[i]);
    }
    lemma_scan(ps, pairs, name);
}

/// The token of an `Authorization` header value: what follows `Bearer ` or
/// `bearer `.
pub open spec fn spec_bearer_token(v: Seq<char>) -> Option<Seq<char>> {
    match strip_prefix_spec(v, "Bearer "@) {
        Some(t) => Some(t),
        None => strip_prefix_spec(v, "bearer "@),
    }
}

/// The token of an `Authorization` header value, if it is a bearer token.
pub fn bearer_token(value: &str) -> (r: Option<Vec<char>>)
    ensures
        r matches Some(t) ==> spec_bearer_token(value@) == Some(t@),
        r is None ==> spec_bearer_token(value@) is None,
{
    let v = chars_of(value);
    let upper = chars_of("Bearer ");
    if let Some(t) = strip_prefix(&v, &upper) {
        return Some(t);
    }
    let lower = chars_of("bearer ");
    strip_prefix(&v, &lower)
}

} // verus!
