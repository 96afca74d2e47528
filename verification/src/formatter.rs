//! Templates. A template holds placeholders, each a name between braces;
//! formatting puts a text in the place of every placeholder whose name is
//! known and leaves the others as they are.

use crate::text::{push_all, same_text, to_chars, to_string};
use vstd::prelude::*;

verus! {

/// The names and their texts as a map: of two pairs with the same name the
/// later one counts.
pub open spec fn vars_map(vars: Seq<(Seq<char>, Seq<char>)>) -> Map<Seq<char>, Seq<char>>
    decreases vars.len(),
{
    if vars.len() == 0 {
        Map::empty()
    } else {
        vars_map(vars.drop_last()).insert(vars.last().0, vars.last().1)
    }
}

/// The place of the first `}` at or after `from`.
pub open spec fn closing(template: Seq<char>, from: int) -> Option<int>
    decreases template.len() - from,
{
    if from < 0 || from >= template.len() {
        None
    } else if template[from] == '}' {
        Some(from)
    } else {
        closing(template, from + 1)
    }
}

/// Whether a known placeholder begins at `at`: a `{`, a name of `vars`,
/// and the first `}` after the `{`.
pub open spec fn placeholder_at(template: Seq<char>, vars: Map<Seq<char>, Seq<char>>, at: int)
    -> bool {
    0 <= at < template.len() && template[at] == '{' && closing(template, at + 1) is Some && at
        < closing(template, at + 1)->0 < template.len() && vars.contains_key(
        template.subrange(at + 1, closing(template, at + 1)->0),
    )
}

/// One pass over `template` from `at` on: every known placeholder gives
/// its text, and every other character stays. What was put in is not read
/// again in the same pass.
pub open spec fn substituted_from(template: Seq<char>, vars: Map<Seq<char>, Seq<char>>, at: int)
    -> Seq<char>
    decreases template.len() - at,
{
    if at < 0 || at >= template.len() {
        Seq::empty()
    } else if placeholder_at(template, vars, at) {
        let end = closing(template, at + 1)->0;
        vars[template.subrange(at + 1, end)] + substituted_from(template, vars, end + 1)
    } else {
        seq![template[at]] + substituted_from(template, vars, at + 1)
    }
}

/// One pass over the whole of `template`.
pub open spec fn substituted(template: Seq<char>, vars: Map<Seq<char>, Seq<char>>) -> Seq<char> {
    substituted_from(template, vars, 0)
}

/// `passes` passes, each over the result of the one before.
pub open spec fn substituted_times(
    template: Seq<char>,
    vars: Map<Seq<char>, Seq<char>>,
    passes: nat,
) -> Seq<char>
    decreases passes,
{
    if passes == 0 {
        template
    } else {
        substituted_times(substituted(template, vars), vars, (passes - 1) as nat)
    }
}

/// How many passes formatting makes, so that a text that was put in may
/// hold placeholders of its own.
pub open spec fn format_passes() -> nat {
    4
}

/// `template` formatted with `vars`.
pub open spec fn formatted(template: Seq<char>, vars: Map<Seq<char>, Seq<char>>) -> Seq<char> {
    substituted_times(template, vars, format_passes())
}

/// The first `}` at or after `from` lies in the template, and no `}` lies
/// between `from` and it.
pub proof fn closing_is_first(template: Seq<char>, from: int)
    requires
        0 <= from,
    ensures
        match closing(template, from) {
            Some(end) => from <= end < template.len() && template[end] == '}' && forall|i: int|
                from <= i < end ==> template[i] != '}',
            None => forall|i: int| from <= i < template.len() ==> template[i] != '}',
        },
    decreases template.len() - from,
{
    if from < template.len() && template[from] != '}' {
        closing_is_first(template, from + 1);
    }
}

/// A template in which no known placeholder begins is left as it is: an
/// unknown name between braces stays in the text.
pub proof fn unknown_placeholders_stay(template: Seq<char>, vars: Map<Seq<char>, Seq<char>>)
    requires
        forall|at: int| 0 <= at < template.len() ==> !placeholder_at(template, vars, at),
    ensures
        substituted(template, vars) == template,
        formatted(template, vars) == template,
{
    nothing_known_from(template, vars, 0);
    assert(template.skip(0) =~= template);
    settled_stays(template, vars, format_passes());
}

/// From `at` on, a pass over a template in which no known placeholder
/// begins gives the template from `at` on.
proof fn nothing_known_from(template: Seq<char>, vars: Map<Seq<char>, Seq<char>>, at: int)
    requires
        0 <= at <= template.len(),
        forall|i: int| 0 <= i < template.len() ==> !placeholder_at(template, vars, i),
    ensures
        substituted_from(template, vars, at) == template.skip(at),
    decreases template.len() - at,
{
    if at < template.len() {
        nothing_known_from(template, vars, at + 1);
        assert(seq![template[at]] + template.skip(at + 1) =~= template.skip(at));
    } else {
        assert(template.skip(at) =~= Seq::empty());
    }
}

/// A template without an opening brace is left as it is.
pub proof fn plain_text_stays(template: Seq<char>, vars: Map<Seq<char>, Seq<char>>)
    requires
        forall|i: int| 0 <= i < template.len() ==> template[i] != '{',
    ensures
        formatted(template, vars) == template,
{
    unknown_placeholders_stay(template, vars);
}

/// A pass puts the text of a known name in the place of its placeholder:
/// the template made of nothing but the placeholder gives the text.
pub proof fn known_placeholder_gives_its_text(
    name: Seq<char>,
    vars: Map<Seq<char>, Seq<char>>,
)
    requires
        vars.contains_key(name),
        forall|i: int| 0 <= i < name.len() ==> name[i] != '}',
    ensures
        substituted(seq!['{'] + name + seq!['}'], vars) == vars[name],
{
    let template = seq!['{'] + name + seq!['}'];
    let end: int = name.len() as int + 1;
    closing_found(template, 1, end);
    assert(template.subrange(1, end) =~= name);
    assert(placeholder_at(template, vars, 0));
    assert(substituted_from(template, vars, end + 1) =~= Seq::empty());
    assert(vars[name] + Seq::<char>::empty() =~= vars[name]);
}

/// A pass that stands before a known placeholder puts its text in and
/// goes on behind its closing brace.
pub proof fn placeholder_step(
    template: Seq<char>,
    vars: Map<Seq<char>, Seq<char>>,
    at: int,
    end: int,
)
    requires
        0 <= at < end < template.len(),
        template[at] == '{',
        template[end] == '}',
        forall|i: int| at < i < end ==> template[i] != '}',
        vars.contains_key(template.subrange(at + 1, end)),
    ensures
        substituted_from(template, vars, at) == vars[template.subrange(at + 1, end)]
            + substituted_from(template, vars, end + 1),
{
    closing_found(template, at + 1, end);
}

/// Adding a pair at the end writes it into the map.
pub proof fn vars_map_push(vars: Seq<(Seq<char>, Seq<char>)>, pair: (Seq<char>, Seq<char>))
    ensures
        vars_map(vars.push(pair)) == vars_map(vars).insert(pair.0, pair.1),
{
    assert(vars.push(pair).drop_last() =~= vars);
}

/// Pairs with other names, added at the end, leave the text of a name as
/// it is.
pub proof fn other_names_change_nothing(
    vars: Seq<(Seq<char>, Seq<char>)>,
    more: Seq<(Seq<char>, Seq<char>)>,
    name: Seq<char>,
)
    requires
        forall|i: int| 0 <= i < more.len() ==> (#[trigger] more[i]).0 != name,
    ensures
        vars_map(vars + more).contains_key(name) == vars_map(vars).contains_key(name),
        vars_map(vars + more).contains_key(name) ==> vars_map(vars + more)[name] == vars_map(
            vars,
        )[name],
    decreases more.len(),
{
    if more.len() == 0 {
        assert(vars + more =~= vars);
    } else {
        assert forall|i: int| 0 <= i < more.drop_last().len() implies (#[trigger] more.drop_last()[i]).0
            != name by {
            assert(more.drop_last()[i] == more[i]);
        }
        other_names_change_nothing(vars, more.drop_last(), name);
        assert((vars + more).drop_last() =~= vars + more.drop_last());
        assert((vars + more).last() == more[more.len() - 1]);
    }
}

/// Where no `}` lies between `from` and `end`, and one lies at `end`, the
/// first `}` at or after `from` is the one at `end`.
proof fn closing_found(template: Seq<char>, from: int, end: int)
    requires
        0 <= from <= end < template.len(),
        template[end] == '}',
        forall|i: int| from <= i < end ==> template[i] != '}',
    ensures
        closing(template, from) == Some(end),
    decreases end - from,
{
    if from < end {
        closing_found(template, from + 1, end);
    }
}

/// The text that the last pair with the name `name` gives.
pub open spec fn looked_up(vars: Seq<(Seq<char>, Seq<char>)>, name: Seq<char>) -> Option<Seq<char>>
    decreases vars.len(),
{
    if vars.len() == 0 {
        None
    } else if vars.last().0 == name {
        Some(vars.last().1)
    } else {
        looked_up(vars.drop_last(), name)
    }
}

/// Looking a name up in the pairs is reading the map.
pub proof fn looked_up_is_map(vars: Seq<(Seq<char>, Seq<char>)>, name: Seq<char>)
    ensures
        looked_up(vars, name) is Some <==> vars_map(vars).contains_key(name),
        looked_up(vars, name) is Some ==> looked_up(vars, name)->0 == vars_map(vars)[name],
    decreases vars.len(),
{
    if vars.len() > 0 {
        looked_up_is_map(vars.drop_last(), name);
    }
}

/// The text that `vars` gives to `name`, if it gives one.
pub fn lookup<'a>(vars: &'a Vec<(String, String)>, name: &Vec<char>) -> (r: Option<&'a String>)
    ensures
        r is Some <==> vars_map(vars.deep_view()).contains_key(name@),
        r is Some ==> r->0@ == vars_map(vars.deep_view())[name@],
{
    let mut i: usize = vars.len();
    assert(vars.deep_view().take(i as int) == vars.deep_view());
    while i > 0
        invariant
            i <= vars.len(),
            looked_up(vars.deep_view(), name@) == looked_up(vars.deep_view().take(i as int), name@),
        decreases i,
    {
        i -= 1;
        let key = to_chars(vars[i].0.as_str());
        assert(vars.deep_view().take(i + 1).last() == vars@[i as int].deep_view());
        assert(vars.deep_view().take(i + 1).drop_last() == vars.deep_view().take(i as int));
        if same_text(&key, name) {
            proof {
                looked_up_is_map(vars.deep_view(), name@);
            }
            return Some(&vars[i].1);
        }
    }
    proof {
        looked_up_is_map(vars.deep_view(), name@);
    }
    None
}

/// The place of the first `}` at or after `from`.
pub fn find_closing(template: &Vec<char>, from: usize) -> (r: Option<usize>)
    ensures
        match r {
            Some(end) => closing(template@, from as int) == Some(end as int),
            None => closing(template@, from as int) is None,
        },
{
    let mut i: usize = from;
    while i < template.len()
        invariant
            from <= i,
            closing(template@, from as int) == closing(template@, i as int),
        decreases template.len() - i,
    {
        if template[i] == '}' {
            return Some(i);
        }
        i += 1;
    }
    None
}

/// One pass over `template`.
pub fn substitute(template: &Vec<char>, vars: &Vec<(String, String)>) -> (r: Vec<char>)
    ensures
        r@ == substituted(template@, vars_map(vars.deep_view())),
{
    let ghost map = vars_map(vars.deep_view());
    let mut out: Vec<char> = Vec::new();
    let mut at: usize = 0;
    while at < template.len()
        invariant
            at <= template.len(),
            map == vars_map(vars.deep_view()),
            out@ + substituted_from(template@, map, at as int) == substituted(template@, map),
        decreases template.len() - at,
    {
        let ghost before = out@;
        let mut next: usize = at + 1;
        let mut known: bool = false;
        if template[at] == '{' {
            if let Some(end) = find_closing(template, at + 1) {
                proof {
                    closing_is_first(template@, at + 1);
                }
                let mut name: Vec<char> = Vec::new();
                let mut i: usize = at + 1;
                while i < end
                    invariant
                        at + 1 <= i <= end < template.len(),
                        name@ == template@.subrange(at + 1, i as int),
                    decreases end - i,
                {
                    name.push(template[i]);
                    i += 1;
                }
                if let Some(text) = lookup(vars, &name) {
                    let chars = to_chars(text.as_str());
                    push_all(&mut out, &chars);
                    next = end + 1;
                    known = true;
                    assert(placeholder_at(template@, map, at as int));
                    assert(out@ == before + map[template@.subrange(at + 1, end as int)]);
                } else {
                    assert(!placeholder_at(template@, map, at as int));
                }
            } else {
                assert(!placeholder_at(template@, map, at as int));
            }
        }
        if !known {
            out.push(template[at]);
            assert(out@ == before + seq![template@[at as int]]);
        }
        assert(out@ + substituted_from(template@, map, next as int) =~= before + substituted_from(
            template@,
            map,
            at as int,
        ));
        at = next;
    }
    assert(out@ + Seq::<char>::empty() =~= out@);
    out
}

/// A text that a pass leaves as it is stays so under any number of
/// passes.
pub proof fn settled_stays(template: Seq<char>, vars: Map<Seq<char>, Seq<char>>, passes: nat)
    requires
        substituted(template, vars) == template,
    ensures
        substituted_times(template, vars, passes) == template,
    decreases passes,
{
    if passes > 0 {
        settled_stays(template, vars, (passes - 1) as nat);
    }
}

/// Formats `fmt` with `vars`: the names of `vars` between braces give
/// their texts, in up to four passes, and everything else stays.
pub fn formatter(fmt: &str, vars: &Vec<(String, String)>) -> (r: String)
    ensures
        r@ == formatted(fmt@, vars_map(vars.deep_view())),
{
    let ghost map = vars_map(vars.deep_view());
    let mut result = to_chars(fmt);
    let mut i: usize = 0;
    while i < 4
        invariant
            i <= 4,
            map == vars_map(vars.deep_view()),
            formatted(fmt@, map) == substituted_times(result@, map, (4 - i) as nat),
        decreases 4 - i,
    {
        let next = substitute(&result, vars);
        if same_text(&next, &result) {
            proof {
                settled_stays(result@, map, (4 - i) as nat);
            }
            return to_string(&result);
        }
        result = next;
        i += 1;
    }
    to_string(&result)
}

} // verus!
