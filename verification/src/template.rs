//! The `${VAR}` template engine.  Substitution is single-pass: each
//! `${NAME}` placeholder is replaced by the innermost binding of `NAME` in
//! the substitution context, or by the empty string when no frame binds it.
//! A `$` that does not open a placeholder, and an unclosed `${`, stay as
//! written.  Substitution never fails.

use vstd::prelude::*;

use crate::context::{ctx_lookup, Context};

verus! {

/// The first position of `c` in `s`, or `s.len()` when `s` does not hold it.
pub open spec fn index_of(s: Seq<char>, c: char) -> int
    decreases s.len(),
{
    if s.len() == 0 {
        0
    } else if s[0] == c {
        0
    } else {
        1 + index_of(s.drop_first(), c)
    }
}

pub proof fn lemma_index_of_props(s: Seq<char>, c: char)
    ensures
        0 <= index_of(s, c) <= s.len(),
        index_of(s, c) < s.len() ==> s[index_of(s, c)] == c,
        forall|m: int| 0 <= m < index_of(s, c) ==> s[m] != c,
    decreases s.len(),
{
    if s.len() > 0 && s[0] != c {
        lemma_index_of_props(s.drop_first(), c);
        assert forall|m: int| 0 <= m < index_of(s, c) implies s[m] != c by {
            if m > 0 {
                assert(s.drop_first()[m - 1] != c);
            }
        }
    }
}

/// Single-pass substitution of `${NAME}` placeholders in `t` with the
/// innermost bindings of `frames`; an unbound name becomes the empty string.
pub open spec fn subst_spec(t: Seq<char>, frames: Seq<Seq<(Seq<char>, Seq<char>)>>) -> Seq<char>
    decreases t.len(),
{
    if t.len() == 0 {
        Seq::empty()
    } else if t[0] == '$' && t.len() >= 2 && t[1] == '{' {
        let j = index_of(t.skip(2), '}');
        if j < 0 || j >= t.len() - 2 {
            t
        } else {
            let expansion = match ctx_lookup(frames, t.subrange(2, 2 + j)) {
                Some(v) => v,
                None => Seq::empty(),
            };
            expansion + subst_spec(t.skip(3 + j), frames)
        }
    } else {
        seq![t[0]] + subst_spec(t.skip(1), frames)
    }
}

/// The first position of `c` in `s` at or after `start`, or the length of
/// `s` when the rest of `s` does not hold it.
pub fn find_char_from(s: &str, start: usize, c: char) -> (r: usize)
    requires
        start <= s@.len(),
    ensures
        start <= r <= s@.len(),
        index_of(s@.skip(start as int), c) == r - start,
        r < s@.len() ==> s@[r as int] == c,
{
    let n = s.unicode_len();
    let mut i = start;
    while i < n
        invariant
            start <= i <= n,
            n == s@.len(),
            forall|m: int| start <= m < i ==> s@[m] != c,
        decreases n - i,
    {
        if s.get_char(i) == c {
            proof {
                lemma_index_of_scan(s@.skip(start as int), c, (i - start) as int);
            }
            return i;
        }
        i = i + 1;
    }
    proof {
        lemma_index_of_missing(s@.skip(start as int), c);
    }
    n
}

proof fn lemma_index_of_scan(s: Seq<char>, c: char, k: int)
    requires
        0 <= k < s.len(),
        s[k] == c,
        forall|m: int| 0 <= m < k ==> s[m] != c,
    ensures
        index_of(s, c) == k,
    decreases k,
{
    if k > 0 {
        lemma_index_of_scan(s.drop_first(), c, k - 1);
    }
}

proof fn lemma_index_of_missing(s: Seq<char>, c: char)
    requires
        forall|m: int| 0 <= m < s.len() ==> s[m] != c,
    ensures
        index_of(s, c) == s.len(),
    decreases s.len(),
{
    if s.len() > 0 {
        lemma_index_of_missing(s.drop_first(), c);
    }
}

/// Replaces every `${NAME}` placeholder in `template` with the innermost
/// binding of `NAME` in `ctx`, or the empty string when `NAME` is unbound.
pub fn substitute(template: &str, ctx: &Context) -> (r: String)
    ensures
        r@ == subst_spec(template@, ctx@),
{
    let n = template.unicode_len();
    let mut out = String::new();
    let mut i: usize = 0;
    proof {
        assert(template@.skip(0) =~= template@);
    }
    while i < n
        invariant
            n == template@.len(),
            i <= n,
            out@ + subst_spec(template@.skip(i as int), ctx@) == subst_spec(template@, ctx@),
        decreases n - i,
    {
        let ghost t = template@.skip(i as int);
        let ghost pre = out@;
        let c = template.get_char(i);
        if c == '$' && i + 1 < n && template.get_char(i + 1) == '{' {
            let j = find_char_from(template, i + 2, '}');
            proof {
                assert(template@.skip(i + 2) =~= t.skip(2));
            }
            if j >= n {
                // no closing brace: the rest stays as written
                let rest = template.substring_char(i, n);
                out.append(rest);
                proof {
                    assert(rest@ =~= t);
                    assert(subst_spec(t, ctx@) == t);
                    assert(template@.skip(n as int) =~= Seq::<char>::empty());
                    assert(out@ + subst_spec(template@.skip(n as int), ctx@) =~= pre
                        + subst_spec(t, ctx@));
                }
                i = n;
            } else {
                let name = template.substring_char(i + 2, j);
                let ghost jj = j - (i + 2);
                proof {
                    assert(name@ =~= t.subrange(2, 2 + jj));
                }
                match ctx.get(&name.to_owned()) {
                    Some(v) => {
                        out.append(v.as_str());
                    },
                    None => {},
                }
                proof {
                    let ghost expansion = match ctx_lookup(ctx@, t.subrange(2, 2 + jj)) {
                        Some(v) => v,
                        None => Seq::<char>::empty(),
                    };
                    assert(out@ == pre + expansion);
                    assert(template@.skip(j + 1) =~= t.skip(3 + jj));
                    assert(subst_spec(t, ctx@) == expansion + subst_spec(t.skip(3 + jj), ctx@));
                    assert(out@ + subst_spec(template@.skip(j + 1), ctx@) =~= pre + subst_spec(
                        t,
                        ctx@,
                    ));
                }
                i = j + 1;
            }
        } else {
            crate::text::push_char(&mut out, c);
            proof {
                assert(template@.skip(i + 1) =~= t.skip(1));
                assert(subst_spec(t, ctx@) == seq![t[0]] + subst_spec(t.skip(1), ctx@));
                assert(out@ + subst_spec(template@.skip(i + 1), ctx@) =~= pre + subst_spec(
                    t,
                    ctx@,
                ));
            }
            i = i + 1;
        }
    }
    proof {
        assert(template@.skip(n as int) =~= Seq::<char>::empty());
    }
    out
}

/// An unbound placeholder expands to the empty string: a template that is
/// exactly `${NAME}`, for a name that holds no closing brace and that no
/// frame binds, substitutes to the empty string.
pub proof fn lemma_substitution_undefined_empty(
    name: Seq<char>,
    frames: Seq<Seq<(Seq<char>, Seq<char>)>>,
)
    requires
        index_of(name, '}') == name.len(),
        ctx_lookup(frames, name) is None,
    ensures
        subst_spec(seq!['$', '{'] + name + seq!['}'], frames) == Seq::<char>::empty(),
{
    lemma_substitution_placeholder(name, frames);
}

/// A bound placeholder expands to its innermost binding: a template that is
/// exactly `${NAME}` substitutes to the binding of `NAME`.
pub proof fn lemma_substitution_defined(
    name: Seq<char>,
    value: Seq<char>,
    frames: Seq<Seq<(Seq<char>, Seq<char>)>>,
)
    requires
        index_of(name, '}') == name.len(),
        ctx_lookup(frames, name) == Some(value),
    ensures
        subst_spec(seq!['$', '{'] + name + seq!['}'], frames) == value,
{
    lemma_substitution_placeholder(name, frames);
    assert(value + Seq::<char>::empty() =~= value);
}

proof fn lemma_substitution_placeholder(name: Seq<char>, frames: Seq<Seq<(Seq<char>, Seq<char>)>>)
    requires
        index_of(name, '}') == name.len(),
    ensures
        subst_spec(seq!['$', '{'] + name + seq!['}'], frames) == (match ctx_lookup(frames, name) {
            Some(v) => v,
            None => Seq::<char>::empty(),
        }),
{
    let t = seq!['$', '{'] + name + seq!['}'];
    assert(t[0] == '$');
    assert(t[1] == '{');
    assert(t.len() == name.len() + 3);
    assert(t.skip(2) =~= name + seq!['}']);
    lemma_index_of_no_hit_extend(name, '}');
    let j = index_of(t.skip(2), '}');
    assert(j == name.len());
    assert(t.subrange(2, 2 + j) =~= name);
    assert(t.skip(3 + j) =~= Seq::<char>::empty());
    assert(subst_spec(Seq::<char>::empty(), frames) == Seq::<char>::empty());
    match ctx_lookup(frames, name) {
        Some(v) => {
            assert(subst_spec(t, frames) =~= v);
        },
        None => {
            assert(subst_spec(t, frames) =~= Seq::<char>::empty());
        },
    }
}

proof fn lemma_index_of_no_hit_extend(s: Seq<char>, c: char)
    requires
        index_of(s, c) == s.len(),
    ensures
        index_of(s + seq![c], c) == s.len(),
    decreases s.len(),
{
    lemma_index_of_props(s, c);
    if s.len() == 0 {
        assert((s + seq![c])[0] == c);
    } else {
        lemma_index_of_no_hit_extend(s.drop_first(), c);
        assert((s + seq![c]).drop_first() =~= s.drop_first() + seq![c]);
    }
}

} // verus!
