//! The library's own minimal variable substitution for link templates:
//! `{{ name }}` tokens, whitespace-tolerant around the identifier, with
//! unresolved names left as they stand. This facility is deliberately
//! separate from the external page-templating collaborator.

use vstd::prelude::*;

verus! {

/// A character that may appear in a substitution token's name.
pub open spec fn is_name_char(c: char) -> bool {
    c != ' ' && c != '{' && c != '}'
}

/// The first position at or after `i` that does not hold a space, or the
/// end of the text.
pub open spec fn spec_skip_spaces(s: Seq<char>, i: int) -> int
    decreases s.len() - i,
{
    if 0 <= i < s.len() && s[i] == ' ' {
        spec_skip_spaces(s, i + 1)
    } else {
        i
    }
}

/// The first position at or after `i` that does not hold a name
/// character, or the end of the text.
pub open spec fn spec_scan_name(s: Seq<char>, i: int) -> int
    decreases s.len() - i,
{
    if 0 <= i < s.len() && is_name_char(s[i]) {
        spec_scan_name(s, i + 1)
    } else {
        i
    }
}

/// The substitution token starting at position `i`, if any: `{{`, spaces,
/// a non-empty name, spaces, `}}`. Yields the name and the position just
/// past the token.
pub open spec fn spec_token_at(s: Seq<char>, i: int) -> Option<(Seq<char>, int)> {
    if 0 <= i && i + 2 <= s.len() && s[i] == '{' && s[i + 1] == '{' {
        let p = spec_skip_spaces(s, i + 2);
        let q = spec_scan_name(s, p);
        if q > p {
            let r = spec_skip_spaces(s, q);
            if r + 2 <= s.len() && s[r] == '}' && s[r + 1] == '}' {
                Some((s.subrange(p, q), r + 2))
            } else {
                None
            }
        } else {
            None
        }
    } else {
        None
    }
}

/// The rendering of the text from position `i` on: at a token whose name
/// the context binds, the bound value is emitted and the scan continues
/// past the token; any other character is copied as it stands.
pub open spec fn spec_subst_from(s: Seq<char>, ctx: Map<Seq<char>, Seq<char>>, i: int) -> Seq<
    char,
>
    decreases s.len() - i,
{
    if !(0 <= i < s.len()) {
        Seq::empty()
    } else {
        match spec_token_at(s, i) {
            Some((name, end)) => {
                if ctx.contains_key(name) && i < end <= s.len() {
                    ctx[name] + spec_subst_from(s, ctx, end)
                } else {
                    seq![s[i]] + spec_subst_from(s, ctx, i + 1)
                }
            },
            None => seq![s[i]] + spec_subst_from(s, ctx, i + 1),
        }
    }
}

/// The rendering of a whole text against a context.
pub open spec fn spec_subst(s: Seq<char>, ctx: Map<Seq<char>, Seq<char>>) -> Seq<char> {
    spec_subst_from(s, ctx, 0)
}

/// The context that a list of bindings denotes; a later binding for a
/// name shadows an earlier one.
pub open spec fn ctx_map(pairs: Seq<(String, String)>) -> Map<Seq<char>, Seq<char>>
    decreases pairs.len(),
{
    if pairs.len() == 0 {
        Map::empty()
    } else {
        ctx_map(pairs.drop_last()).insert(pairs.last().0@, pairs.last().1@)
    }
}

/// Adding a binding to the context binds its name to its value.
pub proof fn lemma_ctx_map_push(pairs: Seq<(String, String)>, p: (String, String))
    ensures
        ctx_map(pairs.push(p)) == ctx_map(pairs).insert(p.0@, p.1@),
{
    assert(pairs.push(p).drop_last() =~= pairs);
    assert(pairs.push(p).last() == p);
}

/// The context binds a name to the value of its last binding.
pub proof fn lemma_ctx_map_last(pairs: Seq<(String, String)>, k: Seq<char>, i: int)
    requires
        0 <= i < pairs.len(),
        pairs[i].0@ == k,
        forall|l: int| i < l < pairs.len() ==> pairs[l].0@ != k,
    ensures
        ctx_map(pairs).contains_key(k),
        ctx_map(pairs)[k] == pairs[i].1@,
    decreases pairs.len(),
{
    if i == pairs.len() - 1 {
    } else {
        assert(pairs.drop_last()[i] == pairs[i]);
        assert forall|l: int| i < l < pairs.len() - 1 implies pairs.drop_last()[l].0@ != k by {
            assert(pairs.drop_last()[l] == pairs[l]);
        }
        lemma_ctx_map_last(pairs.drop_last(), k, i);
        assert(pairs.last().0@ != k);
    }
}

/// A name with no binding is not in the context.
pub proof fn lemma_ctx_map_absent(pairs: Seq<(String, String)>, k: Seq<char>)
    requires
        forall|l: int| 0 <= l < pairs.len() ==> pairs[l].0@ != k,
    ensures
        !ctx_map(pairs).contains_key(k),
    decreases pairs.len(),
{
    if pairs.len() > 0 {
        assert forall|l: int| 0 <= l < pairs.len() - 1 implies pairs.drop_last()[l].0@ != k by {
            assert(pairs.drop_last()[l] == pairs[l]);
        }
        lemma_ctx_map_absent(pairs.drop_last(), k);
    }
}

/// Look a name up among the bindings; the latest binding wins.
fn ctx_get<'a>(context: &'a Vec<(String, String)>, name: &str) -> (r: Option<&'a String>)
    ensures
        r is Some <==> ctx_map(context@).contains_key(name@),
        r matches Some(v) ==> v@ == ctx_map(context@)[name@],
{
    let mut i: usize = 0;
    let mut best: Option<usize> = None;
    while i < context.len()
        invariant
            0 <= i <= context@.len(),
            match best {
                None => forall|l: int| 0 <= l < i ==> context@[l].0@ != name@,
                Some(b) => b < i && context@[b as int].0@ == name@ && forall|l: int|
                    b < l < i ==> context@[l].0@ != name@,
            },
        decreases context@.len() - i,
    {
        if crate::strutil::str_eq(context[i].0.as_str(), name) {
            best = Some(i);
        }
        i = i + 1;
    }
    match best {
        Some(b) => {
            proof {
                lemma_ctx_map_last(context@, name@, b as int);
            }
            Some(&context[b].1)
        },
        None => {
            proof {
                lemma_ctx_map_absent(context@, name@);
            }
            None
        },
    }
}

/// The position after the spaces starting at `i`.
fn skip_spaces(s: &str, len: usize, i: usize) -> (r: usize)
    requires
        len == s@.len(),
        0 <= i <= len,
    ensures
        r as int == spec_skip_spaces(s@, i as int),
        i <= r <= len,
        r < len ==> s@[r as int] != ' ',
{
    let mut j: usize = i;
    while j < len && s.get_char(j) == ' '
        invariant
            i <= j <= len,
            len == s@.len(),
            spec_skip_spaces(s@, i as int) == spec_skip_spaces(s@, j as int),
        decreases len - j,
    {
        j = j + 1;
    }
    j
}

/// The position after the name characters starting at `i`.
fn scan_name(s: &str, len: usize, i: usize) -> (r: usize)
    requires
        len == s@.len(),
        0 <= i <= len,
    ensures
        r as int == spec_scan_name(s@, i as int),
        i <= r <= len,
{
    let mut j: usize = i;
    loop
        invariant
            i <= j <= len,
            len == s@.len(),
            spec_scan_name(s@, i as int) == spec_scan_name(s@, j as int),
        decreases len - j,
    {
        if j >= len {
            return j;
        }
        let c = s.get_char(j);
        if c == ' ' || c == '{' || c == '}' {
            return j;
        }
        j = j + 1;
    }
}

/// The substitution token starting at `i`, if any: its name and the
/// position just past it.
fn token_at(s: &str, len: usize, i: usize) -> (r: Option<(String, usize)>)
    requires
        len == s@.len(),
        0 <= i < len,
    ensures
        r matches Some(t) ==> spec_token_at(s@, i as int) == Some((t.0@, t.1 as int)) && i < t.1
            <= len,
        r is None ==> spec_token_at(s@, i as int) is None,
{
    if len - i < 2 || s.get_char(i) != '{' || s.get_char(i + 1) != '{' {
        return None;
    }
    let p = skip_spaces(s, len, i + 2);
    let q = scan_name(s, len, p);
    if q <= p {
        return None;
    }
    let r = skip_spaces(s, len, q);
    if len - r < 2 || s.get_char(r) != '}' || s.get_char(r + 1) != '}' {
        return None;
    }
    let name = s.substring_char(p, q);
    Some((String::from_str(name), r + 2))
}

/// Render a template against a list of bindings: each `{{ name }}` token
/// whose name is bound is replaced by the bound value; unresolved names
/// are left as they stand.
pub fn simple_template_render(template: &str, context: &Vec<(String, String)>) -> (r: String)
    ensures
        r@ == spec_subst(template@, ctx_map(context@)),
{
    let ghost ctx = ctx_map(context@);
    let len = template.unicode_len();
    let mut out = String::new();
    let mut i: usize = 0;
    while i < len
        invariant
            0 <= i <= len,
            len == template@.len(),
            ctx == ctx_map(context@),
            spec_subst_from(template@, ctx, 0) == out@ + spec_subst_from(
                template@,
                ctx,
                i as int,
            ),
        decreases len - i,
    {
        let ghost prev = out@;
        let mut stepped: bool = false;
        match token_at(template, len, i) {
            Some((name, end)) => {
                match ctx_get(context, name.as_str()) {
                    Some(value) => {
                        out.append(value.as_str());
                        proof {
                            assert(out@ + spec_subst_from(template@, ctx, end as int) =~= prev + (
                            ctx[name@] + spec_subst_from(template@, ctx, end as int)));
                        }
                        i = end;
                        stepped = true;
                    },
                    None => {},
                }
            },
            None => {},
        }
        if !stepped {
            let c = template.get_char(i);
            crate::strutil::push_char(&mut out, c);
            proof {
                assert(out@ =~= prev + seq![c]);
                assert(out@ + spec_subst_from(template@, ctx, i + 1) =~= prev + (seq![c]
                    + spec_subst_from(template@, ctx, i + 1)));
            }
            i = i + 1;
        }
    }
    proof {
        assert(spec_subst_from(template@, ctx, len as int) =~= Seq::<char>::empty());
        assert(out@ + Seq::<char>::empty() =~= out@);
    }
    out
}

} // verus!
