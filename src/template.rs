use vstd::prelude::*;

use crate::store::VarMap;
use crate::text::{
    append_chars, chars_of, eq_chars, find_char, find_char_exec, find_pair, find_pair_exec,
    lemma_find_char_bounds, lemma_find_pair_bounds, slice_chars, string_of,
};
use crate::values::{VarKey, VariableId};

verus! {

/// The token written in place of a placeholder that refers back to a variable
/// that is being expanded.
pub open spec fn loop_marker() -> Seq<char> {
    "<<WARNING:LOOP>>"@
}

/// The variable that a placeholder name denotes: the four reserved names map to
/// the reserved slots, any other name to a user slot.
pub open spec fn key_of(name: Seq<char>) -> VarKey {
    if name == "accumulator"@ {
        VarKey::Accumulator
    } else if name == "loop_value"@ {
        VarKey::LoopValue
    } else if name == "last_output"@ {
        VarKey::LastOutput
    } else if name == "pre_embed"@ {
        VarKey::PreEmbed
    } else {
        VarKey::User(name)
    }
}

/// How many variables of `vars` are not yet on the stack `visited`.
pub open spec fn unvisited<V>(vars: Map<VarKey, V>, visited: Seq<VarKey>) -> nat {
    vars.dom().difference(visited.to_set()).len()
}

/// The expansion of `line` from position `from` on: each `{{...}}` (an opening
/// pair and the first closing pair after it) is replaced by its resolution;
/// text outside placeholders, and everything after the last complete
/// placeholder, is kept verbatim.
pub open spec fn expand(
    vars: Map<VarKey, String>,
    line: Seq<char>,
    from: int,
    visited: Seq<VarKey>,
) -> Seq<char>
    decreases unvisited(vars, visited), line.len() - from, 1nat,
    when vars.dom().finite() && 0 <= from <= line.len()
    via expand_decreases
{
    match find_pair(line, from, '{') {
        None => line.subrange(from, line.len() as int),
        Some(s) => match find_pair(line, s + 2, '}') {
            None => line.subrange(from, line.len() as int),
            Some(e) => line.subrange(from, s) + resolve(vars, line.subrange(s + 2, e), visited)
                + expand(vars, line, e + 2, visited),
        },
    }
}

/// The expansion of the value of `id`, with `id` pushed on the stack;
/// `None` when no value is stored under `id`.
pub open spec fn expand_var(vars: Map<VarKey, String>, id: VarKey, visited: Seq<VarKey>) -> Option<
    Seq<char>,
>
    decreases unvisited(vars, visited), 0int, 0nat,
    when vars.dom().finite()
    via expand_var_decreases
{
    if vars.contains_key(id) && !visited.contains(id) {
        Some(expand(vars, vars[id]@, 0, visited.push(id)))
    } else {
        None
    }
}

/// The resolution of one placeholder body `key`: `NAME`, `NAME|default text` or
/// `NAME|=OTHER`. A name already on the stack gives the loop marker. Otherwise
/// the expansion of the variable's value is used when it is not empty, and the
/// fallback after the first `|` when it is empty or the variable is missing.
pub open spec fn resolve(vars: Map<VarKey, String>, key: Seq<char>, visited: Seq<VarKey>) -> Seq<
    char,
>
    decreases unvisited(vars, visited), key.len(), 2nat,
    when vars.dom().finite()
{
    let pipe = find_char(key, 0, '|');
    let name = match pipe {
        Some(p) => key.subrange(0, p),
        None => key,
    };
    let id = key_of(name);
    if visited.contains(id) {
        loop_marker()
    } else {
        match expand_var(vars, id, visited) {
            Some(v) if v.len() > 0 => v,
            _ => match pipe {
                None => Seq::empty(),
                Some(p) => {
                    let fallback = key.subrange(p + 1, key.len() as int);
                    if fallback.len() > 0 && fallback[0] == '=' {
                        let alt = key_of(fallback.subrange(1, fallback.len() as int));
                        if visited.contains(alt) {
                            loop_marker()
                        } else {
                            match expand_var(vars, alt, visited) {
                                Some(v) => v,
                                None => Seq::empty(),
                            }
                        }
                    } else {
                        fallback
                    }
                },
            },
        }
    }
}

/// The expansion of a whole line with an empty stack.
pub open spec fn expand_line(vars: Map<VarKey, String>, line: Seq<char>) -> Seq<char> {
    expand(vars, line, 0, Seq::empty())
}

#[via_fn]
proof fn expand_decreases(
    vars: Map<VarKey, String>,
    line: Seq<char>,
    from: int,
    visited: Seq<VarKey>,
) {
    lemma_find_pair_bounds(line, from, '{');
    if let Some(s) = find_pair(line, from, '{') {
        lemma_find_pair_bounds(line, s + 2, '}');
    }
}

#[via_fn]
proof fn expand_var_decreases(vars: Map<VarKey, String>, id: VarKey, visited: Seq<VarKey>) {
    if vars.contains_key(id) && !visited.contains(id) {
        lemma_unvisited_push(vars, visited, id);
    }
}

/// Pushing a stored, unvisited variable on the stack lowers the count of
/// unvisited variables.
pub proof fn lemma_unvisited_push<V>(vars: Map<VarKey, V>, visited: Seq<VarKey>, id: VarKey)
    requires
        vars.dom().finite(),
        vars.contains_key(id),
        !visited.contains(id),
    ensures
        unvisited(vars, visited.push(id)) < unvisited(vars, visited),
{
    let a = vars.dom().difference(visited.to_set());
    let b = vars.dom().difference(visited.push(id).to_set());
    assert forall|k: VarKey| #[trigger] visited.push(id).contains(k) <==> visited.contains(k)
        || k == id by {
        if visited.push(id).contains(k) {
            let i = choose|i: int| 0 <= i < visited.push(id).len() && visited.push(id)[i] == k;
            if i < visited.len() {
                assert(visited[i] == k);
            }
        }
        if visited.contains(k) {
            let i = choose|i: int| 0 <= i < visited.len() && visited[i] == k;
            assert(visited.push(id)[i] == k);
        }
        if k == id {
            assert(visited.push(id)[visited.len() as int] == k);
        }
    }
    assert(b =~= a.remove(id));
    assert(a.contains(id));
}

/// The keys of a stack of identifiers.
pub open spec fn keys_of(ids: Seq<VariableId>) -> Seq<VarKey> {
    ids.map_values(|x: VariableId| x@)
}

/// Whether `id` is on the stack.
pub fn on_stack(ids: &Vec<VariableId>, id: &VariableId) -> (r: bool)
    ensures
        r == keys_of(ids@).contains(id@),
{
    let mut i: usize = 0;
    while i < ids.len()
        invariant
            i <= ids@.len(),
            forall|j: int| 0 <= j < i ==> ids@[j]@ != id@,
        decreases ids@.len() - i,
    {
        if ids[i].same(id) {
            assert(keys_of(ids@)[i as int] == id@);
            return true;
        }
        i += 1;
    }
    assert(!keys_of(ids@).contains(id@)) by {
        if keys_of(ids@).contains(id@) {
            let j = choose|j: int| 0 <= j < keys_of(ids@).len() && keys_of(ids@)[j] == id@;
            assert(ids@[j]@ == id@);
        }
    }
    false
}

/// The stack with `id` pushed on it, as a new vector.
pub fn pushed(ids: &Vec<VariableId>, id: &VariableId) -> (r: Vec<VariableId>)
    ensures
        keys_of(r@) == keys_of(ids@).push(id@),
{
    let mut r: Vec<VariableId> = Vec::new();
    let mut i: usize = 0;
    while i < ids.len()
        invariant
            i <= ids@.len(),
            r@ == ids@.subrange(0, i as int),
        decreases ids@.len() - i,
    {
        r.push(ids[i].copy());
        i += 1;
    }
    assert(r@ == ids@);
    r.push(id.copy());
    assert(keys_of(r@) =~= keys_of(ids@).push(id@));
    r
}

/// The identifier that a placeholder name denotes.
pub fn key_of_exec(name: &Vec<char>) -> (r: VariableId)
    ensures
        r@ == key_of(name@),
{
    if eq_chars(name, &chars_of("accumulator")) {
        VariableId::Accumulator
    } else if eq_chars(name, &chars_of("loop_value")) {
        VariableId::LoopValue
    } else if eq_chars(name, &chars_of("last_output")) {
        VariableId::LastOutput
    } else if eq_chars(name, &chars_of("pre_embed")) {
        VariableId::PreEmbed
    } else {
        VariableId::User(string_of(name.as_slice()))
    }
}

fn expand_exec(vars: &VarMap<String>, line: &Vec<char>, visited: &Vec<VariableId>) -> (r: Vec<
    char,
>)
    requires
        vars.wf(),
    ensures
        r@ == expand(vars@, line@, 0, keys_of(visited@)),
    decreases unvisited(vars@, keys_of(visited@)), line@.len(), 1nat,
{
    proof {
        vars.lemma_finite();
    }
    let ghost vis = keys_of(visited@);
    let mut out: Vec<char> = Vec::new();
    let mut pos: usize = 0;
    loop
        invariant
            vars.wf(),
            vars@.dom().finite(),
            vis == keys_of(visited@),
            pos <= line@.len(),
            expand(vars@, line@, 0, vis) == out@ + expand(vars@, line@, pos as int, vis),
        decreases line@.len() - pos,
    {
        proof {
            lemma_find_pair_bounds(line@, pos as int, '{');
        }
        let open = find_pair_exec(line, pos, '{');
        let s = match open {
            None => {
                let rest = slice_chars(line, pos, line.len());
                append_chars(&mut out, rest.as_slice());
                return out;
            },
            Some(s) => s,
        };
        assert(s + 1 < line@.len() <= usize::MAX) by {
            assert(line@.len() == line.len());
        }
        proof {
            lemma_find_pair_bounds(line@, s + 2, '}');
        }
        let close = find_pair_exec(line, s + 2, '}');
        let e = match close {
            None => {
                let rest = slice_chars(line, pos, line.len());
                append_chars(&mut out, rest.as_slice());
                return out;
            },
            Some(e) => e,
        };
        let before = slice_chars(line, pos, s);
        let key = slice_chars(line, s + 2, e);
        assert(e + 1 < line@.len() <= usize::MAX) by {
            assert(line@.len() == line.len());
        }
        let value = resolve_exec(vars, &key, visited);
        append_chars(&mut out, before.as_slice());
        append_chars(&mut out, value.as_slice());
        pos = e + 2;
    }
}

fn expand_var_exec(vars: &VarMap<String>, id: &VariableId, visited: &Vec<VariableId>) -> (r: Option<
    Vec<char>,
>)
    requires
        vars.wf(),
    ensures
        r matches Some(v) ==> expand_var(vars@, id@, keys_of(visited@)) == Some(v@),
        r is None ==> expand_var(vars@, id@, keys_of(visited@)) is None,
    decreases unvisited(vars@, keys_of(visited@)), 0int, 0nat,
{
    proof {
        vars.lemma_finite();
    }
    if on_stack(visited, id) {
        return None;
    }
    match vars.get(id) {
        None => None,
        Some(value) => {
            let next = pushed(visited, id);
            proof {
                lemma_unvisited_push(vars@, keys_of(visited@), id@);
            }
            let chars = chars_of(value.as_str());
            Some(expand_exec(vars, &chars, &next))
        },
    }
}

fn resolve_exec(vars: &VarMap<String>, key: &Vec<char>, visited: &Vec<VariableId>) -> (r: Vec<char>)
    requires
        vars.wf(),
    ensures
        r@ == resolve(vars@, key@, keys_of(visited@)),
    decreases unvisited(vars@, keys_of(visited@)), key@.len(), 2nat,
{
    proof {
        vars.lemma_finite();
        lemma_find_char_bounds(key@, 0, '|');
    }
    let pipe = find_char_exec(key, 0, '|');
    let name = match pipe {
        Some(p) => slice_chars(key, 0, p),
        None => slice_chars(key, 0, key.len()),
    };
    assert(key@.subrange(0, key@.len() as int) == key@);
    let id = key_of_exec(&name);
    if on_stack(visited, &id) {
        return chars_of("<<WARNING:LOOP>>");
    }
    match expand_var_exec(vars, &id, visited) {
        Some(v) => {
            if v.len() > 0 {
                return v;
            }
        },
        None => {},
    }
    match pipe {
        None => Vec::new(),
        Some(p) => {
            let n = key.len();
            let fallback = slice_chars(key, p + 1, n);
            if fallback.len() > 0 && fallback[0] == '=' {
                let alt_name = slice_chars(&fallback, 1, fallback.len());
                let alt = key_of_exec(&alt_name);
                if on_stack(visited, &alt) {
                    chars_of("<<WARNING:LOOP>>")
                } else {
                    match expand_var_exec(vars, &alt, visited) {
                        Some(v) => v,
                        None => Vec::new(),
                    }
                }
            } else {
                fallback
            }
        },
    }
}

/// Expands every placeholder of `line` against the text variables `vars`.
pub fn expand_template(vars: &VarMap<String>, line: &str) -> (r: String)
    requires
        vars.wf(),
    ensures
        r@ == expand_line(vars@, line@),
{
    let chars = chars_of(line);
    let empty: Vec<VariableId> = Vec::new();
    assert(keys_of(empty@) =~= Seq::<VarKey>::empty());
    let out = expand_exec(vars, &chars, &empty);
    string_of(out.as_slice())
}

proof fn lemma_first_pipe(name: Seq<char>, rest: Seq<char>, i: int)
    requires
        0 <= i <= name.len(),
        forall|j: int| 0 <= j < name.len() ==> name[j] != '|',
    ensures
        find_char(name + seq!['|'] + rest, i, '|') == Some(name.len() as int),
    decreases name.len() - i,
{
    let key = name + seq!['|'] + rest;
    if i < name.len() {
        assert(key[i] == name[i]);
        lemma_first_pipe(name, rest, i + 1);
    } else {
        assert(key[i] == '|');
    }
}

/// A placeholder whose name is on the stack resolves to the loop marker.
pub proof fn lemma_loop_marker(vars: Map<VarKey, String>, name: Seq<char>, visited: Seq<VarKey>)
    requires
        vars.dom().finite(),
        forall|j: int| 0 <= j < name.len() ==> name[j] != '|',
        visited.contains(key_of(name)),
    ensures
        resolve(vars, name, visited) == loop_marker(),
{
    lemma_find_char_bounds(name, 0, '|');
    if let Some(p) = find_char(name, 0, '|') {
        assert(name[p] == '|');
    }
}

/// `NAME|default`: the default is used exactly when the expansion of the
/// variable is empty or the variable is missing.
pub proof fn lemma_default_fallback(
    vars: Map<VarKey, String>,
    name: Seq<char>,
    default: Seq<char>,
    visited: Seq<VarKey>,
)
    requires
        vars.dom().finite(),
        forall|j: int| 0 <= j < name.len() ==> name[j] != '|',
        !visited.contains(key_of(name)),
        !(default.len() > 0 && default[0] == '='),
    ensures
        resolve(vars, name + seq!['|'] + default, visited) == match expand_var(
            vars,
            key_of(name),
            visited,
        ) {
            Some(v) => if v.len() > 0 {
                v
            } else {
                default
            },
            None => default,
        },
{
    let key = name + seq!['|'] + default;
    lemma_first_pipe(name, default, 0);
    assert(key.subrange(0, name.len() as int) =~= name);
    assert(key.subrange(name.len() as int + 1, key.len() as int) =~= default);
}

/// `NAME|=OTHER` with `NAME` missing: the expansion of `OTHER`, with the same
/// loop check.
pub proof fn lemma_variable_fallback(
    vars: Map<VarKey, String>,
    name: Seq<char>,
    other: Seq<char>,
    visited: Seq<VarKey>,
)
    requires
        vars.dom().finite(),
        forall|j: int| 0 <= j < name.len() ==> name[j] != '|',
        !visited.contains(key_of(name)),
        !vars.contains_key(key_of(name)),
    ensures
        resolve(vars, name + seq!['|', '='] + other, visited) == if visited.contains(
            key_of(other),
        ) {
            loop_marker()
        } else {
            match expand_var(vars, key_of(other), visited) {
                Some(v) => v,
                None => Seq::empty(),
            }
        },
{
    let fallback = seq!['='] + other;
    let key = name + seq!['|'] + fallback;
    assert(key =~= name + seq!['|', '='] + other);
    lemma_first_pipe(name, fallback, 0);
    assert(key.subrange(0, name.len() as int) =~= name);
    assert(key.subrange(name.len() as int + 1, key.len() as int) =~= fallback);
    assert(fallback.subrange(1, fallback.len() as int) =~= other);
}

proof fn lemma_no_close_before(line: Seq<char>, from: int, e: int)
    requires
        0 <= from <= e,
        e + 1 < line.len(),
        line[e] == '}',
        line[e + 1] == '}',
        forall|i: int| from <= i < e ==> line[i] != '}',
    ensures
        find_pair(line, from, '}') == Some(e),
    decreases e - from,
{
    if from < e {
        lemma_no_close_before(line, from + 1, e);
    }
}

/// A line that is one placeholder expands to the resolution of its body,
/// when the body holds no closing brace.
pub proof fn lemma_single_placeholder(vars: Map<VarKey, String>, key: Seq<char>)
    requires
        vars.dom().finite(),
        forall|i: int| 0 <= i < key.len() ==> key[i] != '}',
    ensures
        expand_line(vars, seq!['{', '{'] + key + seq!['}', '}']) == resolve(vars, key, Seq::empty()),
{
    let line = seq!['{', '{'] + key + seq!['}', '}'];
    let e: int = key.len() as int + 2;
    assert(line[0] == '{' && line[1] == '{');
    assert forall|i: int| 2 <= i < e implies line[i] != '}' by {
        assert(line[i] == key[i - 2]);
    }
    lemma_no_close_before(line, 2, e);
    assert(line.subrange(2, e) =~= key);
    assert(line.subrange(0, 0) =~= Seq::<char>::empty());
    assert(line.subrange(e + 2, line.len() as int) =~= Seq::<char>::empty());
    assert(find_pair(line, e + 2, '{') is None);
    assert(expand(vars, line, e + 2, Seq::empty()) == Seq::<char>::empty());
    assert(expand(vars, line, 0, Seq::empty()) =~= resolve(vars, key, Seq::empty()));
}

/// `{{NAME|default}}` as a whole line: the default exactly when the expansion
/// of the variable is empty or the variable is missing.
pub proof fn lemma_line_default_fallback(vars: Map<VarKey, String>, name: Seq<char>, default: Seq<char>)
    requires
        vars.dom().finite(),
        forall|j: int| 0 <= j < name.len() ==> name[j] != '|' && name[j] != '}',
        forall|j: int| 0 <= j < default.len() ==> default[j] != '}',
        !(default.len() > 0 && default[0] == '='),
    ensures
        expand_line(vars, seq!['{', '{'] + name + seq!['|'] + default + seq!['}', '}']) == match expand_var(
            vars,
            key_of(name),
            Seq::empty(),
        ) {
            Some(v) => if v.len() > 0 {
                v
            } else {
                default
            },
            None => default,
        },
{
    let key = name + seq!['|'] + default;
    assert forall|i: int| 0 <= i < key.len() implies key[i] != '}' by {
        if i < name.len() {
            assert(key[i] == name[i]);
        } else if i > name.len() {
            assert(key[i] == default[i - name.len() - 1]);
        }
    }
    lemma_single_placeholder(vars, key);
    assert(seq!['{', '{'] + name + seq!['|'] + default + seq!['}', '}'] =~= seq!['{', '{'] + key
        + seq!['}', '}']);
    lemma_default_fallback(vars, name, default, Seq::empty());
}

/// `{{NAME|=OTHER}}` as a whole line, `NAME` missing: the expansion of `OTHER`,
/// or nothing when it is missing too.
pub proof fn lemma_line_variable_fallback(vars: Map<VarKey, String>, name: Seq<char>, other: Seq<char>)
    requires
        vars.dom().finite(),
        forall|j: int| 0 <= j < name.len() ==> name[j] != '|' && name[j] != '}',
        forall|j: int| 0 <= j < other.len() ==> other[j] != '}',
        !vars.contains_key(key_of(name)),
    ensures
        expand_line(vars, seq!['{', '{'] + name + seq!['|', '='] + other + seq!['}', '}']) == match expand_var(
            vars,
            key_of(other),
            Seq::empty(),
        ) {
            Some(v) => v,
            None => Seq::empty(),
        },
{
    let key = name + seq!['|', '='] + other;
    assert forall|i: int| 0 <= i < key.len() implies key[i] != '}' by {
        if i < name.len() {
            assert(key[i] == name[i]);
        } else if i > name.len() + 1 {
            assert(key[i] == other[i - name.len() - 2]);
        }
    }
    lemma_single_placeholder(vars, key);
    assert(seq!['{', '{'] + name + seq!['|', '='] + other + seq!['}', '}'] =~= seq!['{', '{'] + key
        + seq!['}', '}']);
    lemma_variable_fallback(vars, name, other, Seq::empty());
}

} // verus!
