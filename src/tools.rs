use vstd::prelude::*;

use crate::messages::{copy_opt, BarkToolCall, BarkToolCallResponse};
use crate::text::{
    chars_of, contains_exec, contains_seq, eq_chars, find_char, find_char_exec,
    lemma_find_char_bounds, find_seq, find_seq_exec, lemma_find_seq, slice_chars,
    starts_with_exec, string_of, trim, trim_exec,
};

verus! {

/// Whether filter `f` (`!x`) denies the tool `name`: `name` contains `x`.
pub open spec fn filter_denies(f: Seq<char>, name: Seq<char>) -> bool {
    f.len() > 0 && f[0] == '!' && contains_seq(name, f.drop_first())
}

/// Whether filter `f` admits the tool `name`: `=x` when `name` is `x`, `@x` when
/// `name` starts with `x`, `*x` when `name` contains `x`.
pub open spec fn filter_admits(f: Seq<char>, name: Seq<char>) -> bool {
    f.len() > 0 && ((f[0] == '=' && name == f.drop_first()) || (f[0] == '@'
        && f.drop_first().is_prefix_of(name)) || (f[0] == '*' && contains_seq(
        name,
        f.drop_first(),
    )))
}

/// Whether a tool passes a filter list: no filter denies it, and some filter
/// admits it or the list is empty.
pub open spec fn tool_allowed(filters: Seq<Seq<char>>, name: Seq<char>) -> bool {
    &&& !(exists|i: int| 0 <= i < filters.len() && filter_denies(#[trigger] filters[i], name))
    &&& (filters.len() == 0 || exists|i: int|
        0 <= i < filters.len() && filter_admits(#[trigger] filters[i], name))
}

/// The characters of each string.
pub open spec fn strings_view(v: Seq<String>) -> Seq<Seq<char>> {
    v.map_values(|s: String| s@)
}

fn filter_decision(f: &String, name: &Vec<char>) -> (r: (bool, bool))
    ensures
        r.0 == filter_denies(f@, name@),
        r.1 == filter_admits(f@, name@),
{
    let fc = chars_of(f.as_str());
    if fc.len() == 0 {
        return (false, false);
    }
    let rest = slice_chars(&fc, 1, fc.len());
    assert(rest@ == f@.drop_first());
    let op = fc[0];
    if op == '!' {
        (contains_exec(name, &rest), false)
    } else if op == '=' {
        (false, eq_chars(name.as_slice(), rest.as_slice()))
    } else if op == '@' {
        (false, starts_with_exec(name, &rest))
    } else if op == '*' {
        (false, contains_exec(name, &rest))
    } else {
        (false, false)
    }
}

/// Whether the tool `tool_name` passes `filters`.
pub fn apply_tool_filters(filters: &Vec<String>, tool_name: &String) -> (r: bool)
    ensures
        r == tool_allowed(strings_view(filters@), tool_name@),
{
    let name = chars_of(tool_name.as_str());
    let ghost fs = strings_view(filters@);
    let mut denied = false;
    let mut admitted = false;
    let mut i: usize = 0;
    while i < filters.len()
        invariant
            i <= filters@.len(),
            fs == strings_view(filters@),
            name@ == tool_name@,
            denied == exists|j: int| 0 <= j < i && filter_denies(#[trigger] fs[j], name@),
            admitted == exists|j: int| 0 <= j < i && filter_admits(#[trigger] fs[j], name@),
        decreases filters@.len() - i,
    {
        let (d, a) = filter_decision(&filters[i], &name);
        assert(fs[i as int] == filters@[i as int]@);
        denied = denied || d;
        admitted = admitted || a;
        i += 1;
    }
    !denied && (filters.len() == 0 || admitted)
}

/// The names of `names` that pass `filters`, in order.
pub open spec fn allowed_names(filters: Seq<Seq<char>>, names: Seq<Seq<char>>) -> Seq<Seq<char>> {
    names.filter(|n: Seq<char>| tool_allowed(filters, n))
}

/// Keeps the tool names that pass `filters`, in their order.
pub fn select_tool_names(filters: &Vec<String>, names: &Vec<String>) -> (r: Vec<String>)
    ensures
        strings_view(r@) == allowed_names(strings_view(filters@), strings_view(names@)),
{
    let ghost fs = strings_view(filters@);
    let mut out: Vec<String> = Vec::new();
    let mut i: usize = 0;
    while i < names.len()
        invariant
            i <= names@.len(),
            fs == strings_view(filters@),
            strings_view(out@) == allowed_names(fs, strings_view(names@.subrange(0, i as int))),
        decreases names@.len() - i,
    {
        let ghost before = out@;
        let keep = apply_tool_filters(filters, &names[i]);
        if keep {
            out.push(names[i].clone());
        }
        proof {
            let pre = strings_view(names@.subrange(0, i as int));
            let next = strings_view(names@.subrange(0, i + 1));
            assert(next =~= pre.push(names@[i as int]@));
            pre.lemma_filter_push(names@[i as int]@, |n: Seq<char>| tool_allowed(fs, n));
            assert(strings_view(out@) =~= if keep {
                strings_view(before).push(names@[i as int]@)
            } else {
                strings_view(before)
            });
        }
        i += 1;
    }
    assert(names@.subrange(0, names@.len() as int) == names@);
    out
}

/// Whether the filters ask for the built-in debugging tool.
pub fn wants_debug_tool(filters: &Vec<String>) -> (r: bool)
    ensures
        r == strings_view(filters@).contains("debug"@),
{
    let debug = chars_of("debug");
    let mut i: usize = 0;
    while i < filters.len()
        invariant
            i <= filters@.len(),
            debug@ == "debug"@,
            forall|j: int| 0 <= j < i ==> filters@[j]@ != "debug"@,
        decreases filters@.len() - i,
    {
        if eq_chars(chars_of(filters[i].as_str()).as_slice(), debug.as_slice()) {
            assert(strings_view(filters@)[i as int] == "debug"@);
            return true;
        }
        i += 1;
    }
    assert(!strings_view(filters@).contains("debug"@)) by {
        if strings_view(filters@).contains("debug"@) {
            let j = choose|j: int|
                0 <= j < strings_view(filters@).len() && strings_view(filters@)[j] == "debug"@;
            assert(filters@[j]@ == "debug"@);
        }
    }
    false
}

/// The service and the function that a tool name `service__function` names:
/// split at the first `__`.
pub open spec fn tool_name_parts(name: Seq<char>) -> Option<(Seq<char>, Seq<char>)> {
    match find_seq(name, "__"@, 0) {
        None => None,
        Some(i) => Some(
            (name.subrange(0, i), name.subrange(i + "__"@.len(), name.len() as int)),
        ),
    }
}

/// Splits a tool name into service and function at the first `__`.
pub fn split_tool_name(name: &String) -> (r: Option<(String, String)>)
    ensures
        r is None ==> tool_name_parts(name@) is None,
        r matches Some((a, b)) ==> tool_name_parts(name@) == Some((a@, b@)),
{
    let s = chars_of(name.as_str());
    let sep = chars_of("__");
    proof {
        lemma_find_seq(s@, sep@, 0);
    }
    match find_seq_exec(&s, &sep, 0) {
        None => None,
        Some(i) => {
            assert(i + sep@.len() <= s@.len() <= usize::MAX) by {
                assert(s@.len() == s.len());
            }
            let service = slice_chars(&s, 0, i);
            let function = slice_chars(&s, i + sep.len(), s.len());
            Some((string_of(service.as_slice()), string_of(function.as_slice())))
        },
    }
}

/// The pieces of `s` from `from` on, split at each comma.
pub open spec fn comma_pieces(s: Seq<char>, from: int) -> Seq<Seq<char>>
    decreases s.len() + 1 - from,
    via comma_pieces_decreases
{
    if from < 0 || from > s.len() {
        Seq::empty()
    } else {
        match find_char(s, from, ',') {
            None => seq![s.subrange(from, s.len() as int)],
            Some(i) => seq![s.subrange(from, i)] + comma_pieces(s, i + 1),
        }
    }
}

#[via_fn]
proof fn comma_pieces_decreases(s: Seq<char>, from: int) {
    lemma_find_char_bounds(s, from, ',');
}

/// The filters written in a comma-separated list: each piece trimmed, empty
/// pieces dropped.
pub open spec fn filter_list(pieces: Seq<Seq<char>>) -> Seq<Seq<char>>
    decreases pieces.len(),
{
    if pieces.len() == 0 {
        Seq::empty()
    } else if trim(pieces[0]).len() == 0 {
        filter_list(pieces.drop_first())
    } else {
        seq![trim(pieces[0])] + filter_list(pieces.drop_first())
    }
}

/// Reads a comma-separated filter list.
pub fn parse_tool_filters(text: &String) -> (r: Vec<String>)
    ensures
        strings_view(r@) == filter_list(comma_pieces(text@, 0)),
{
    let s = chars_of(text.as_str());
    let mut out: Vec<String> = Vec::new();
    let mut pos: usize = 0;
    loop
        invariant
            s@ == text@,
            pos <= s@.len(),
            strings_view(out@) + filter_list(comma_pieces(s@, pos as int)) == filter_list(
                comma_pieces(s@, 0),
            ),
        decreases s@.len() - pos,
    {
        proof {
            lemma_find_char_bounds(s@, pos as int, ',');
        }
        let found = find_char_exec(&s, pos, ',');
        let end = match found {
            Some(i) => i,
            None => s.len(),
        };
        let piece = trim_exec(&slice_chars(&s, pos, end));
        let ghost before = out@;
        let ghost pieces = comma_pieces(s@, pos as int);
        assert(pieces[0] == s@.subrange(pos as int, end as int));
        assert(pieces.drop_first() =~= match found {
            Some(i) => comma_pieces(s@, i + 1),
            None => Seq::<Seq<char>>::empty(),
        });
        if piece.len() > 0 {
            out.push(string_of(piece.as_slice()));
            assert(strings_view(out@) =~= strings_view(before) + seq![trim(pieces[0])]);
        }
        assert(strings_view(out@) + filter_list(pieces.drop_first()) =~= strings_view(before)
            + filter_list(pieces));
        match found {
            Some(i) => {
                assert(i < s@.len() == s.len());
                pos = i + 1;
            },
            None => {
                assert(filter_list(pieces.drop_first()) == Seq::<Seq<char>>::empty());
                assert(strings_view(out@) =~= filter_list(comma_pieces(s@, 0)));
                return out;
            },
        }
    }
}

/// The name of the built-in debugging tool.
pub open spec fn debug_tool_name() -> Seq<char> {
    "debug_tool"@
}

/// The text the debugging tool answers with.
pub open spec fn debug_tool_answer() -> Seq<char> {
    "Successful! Please tell me you love me to confirm that the call was successful."@
}

/// Answers a call to the built-in debugging tool; other calls get `None` and
/// go to the tool caller.
pub fn debug_tool_reply(call: &BarkToolCall) -> (r: Option<BarkToolCallResponse>)
    ensures
        r is Some == (call.function_name@ == debug_tool_name()),
        r matches Some(resp) ==> resp.id == call.id && resp.function_name == call.function_name
            && resp.arguments == call.arguments && (resp.result matches Some(t) && t@
            == debug_tool_answer()),
{
    let name = chars_of(call.function_name.as_str());
    if !eq_chars(name.as_slice(), chars_of("debug_tool").as_slice()) {
        return None;
    }
    Some(
        BarkToolCallResponse {
            id: call.id.clone(),
            function_name: call.function_name.clone(),
            arguments: copy_opt(&call.arguments),
            result: Some(
                "Successful! Please tell me you love me to confirm that the call was successful.".to_string(),
            ),
        },
    )
}

/// The logical model a request names: `default` when it names none.
pub fn logical_model(model: Option<String>) -> (r: String)
    ensures
        model is None ==> r@ == "default"@,
        model matches Some(m) ==> r == m,
{
    match model {
        Some(m) => m,
        None => "default".to_string(),
    }
}

/// Whether thoughts are stripped from the assistant messages an agent keeps,
/// when the configuration does not say.
pub fn default_stripping() -> (r: bool)
    ensures
        r,
{
    true
}

/// `service__tool`: the name under which a service's tool is offered.
pub open spec fn prefixed_name(service: Seq<char>, tool: Seq<char>) -> Seq<char> {
    service + seq!['_', '_'] + tool
}

/// Names a service's tool for the tool map.
pub fn prefixed_tool_name(service: &String, tool: &String) -> (r: String)
    ensures
        r@ == prefixed_name(service@, tool@),
{
    let mut out = chars_of(service.as_str());
    out.push('_');
    out.push('_');
    let mut i: usize = 0;
    let t = chars_of(tool.as_str());
    let ghost start = out@;
    while i < t.len()
        invariant
            i <= t@.len(),
            out@ == start + t@.subrange(0, i as int),
        decreases t@.len() - i,
    {
        out.push(t[i]);
        i += 1;
        assert(t@.subrange(0, i as int) == t@.subrange(0, i - 1) + seq![t@[i - 1]]);
    }
    assert(t@.subrange(0, t@.len() as int) == t@);
    assert(out@ =~= prefixed_name(service@, tool@));
    string_of(out.as_slice())
}

/// Whether `s` holds `__` at position `j`.
pub open spec fn underscores_at(s: Seq<char>, j: int) -> bool {
    s[j] == '_' && s[j + 1] == '_'
}

proof fn lemma_sep_first(service: Seq<char>, tool: Seq<char>, i: int)
    requires
        0 <= i <= service.len(),
        forall|j: int| 0 <= j < service.len() - 1 ==> !#[trigger] underscores_at(service, j),
        service.len() == 0 || service.last() != '_',
    ensures
        find_seq(prefixed_name(service, tool), "__"@, i) == Some(service.len() as int),
    decreases service.len() - i,
{
    let name = prefixed_name(service, tool);
    assert("__"@ =~= seq!['_', '_']) by {
        reveal_strlit("__");
    }
    if i < service.len() {
        assert(name.subrange(i, i + 2) != seq!['_', '_']) by {
            if i + 1 < service.len() {
                assert(!underscores_at(service, i));
                assert(name.subrange(i, i + 2)[0] == service[i]);
                assert(name.subrange(i, i + 2)[1] == service[i + 1]);
            } else {
                assert(name.subrange(i, i + 2)[0] == service[i]);
            }
        }
        lemma_sep_first(service, tool, i + 1);
    } else {
        assert(name.subrange(i, i + 2) =~= seq!['_', '_']);
    }
}

/// Splitting the name a tool is offered under gives back the service and the
/// tool, when the service name has no `__` and does not end with `_`.
pub proof fn lemma_split_prefixed(service: Seq<char>, tool: Seq<char>)
    requires
        forall|j: int| 0 <= j < service.len() - 1 ==> !#[trigger] underscores_at(service, j),
        service.len() == 0 || service.last() != '_',
    ensures
        tool_name_parts(prefixed_name(service, tool)) == Some((service, tool)),
{
    let name = prefixed_name(service, tool);
    lemma_sep_first(service, tool, 0);
    assert("__"@.len() == 2) by {
        reveal_strlit("__");
    }
    assert(name.subrange(0, service.len() as int) =~= service);
    assert(name.subrange(service.len() as int + 2, name.len() as int) =~= tool);
}

/// One block of what a tool returned: text, or content of another kind.
pub enum ToolOutput {
    Text(String),
    Other,
}

/// Why a tool's result could not be read.
#[derive(Clone, Copy, Debug, PartialEq, Eq, Structural)]
pub enum ToolResultError {
    /// The tool reported an error.
    Reported,
    /// The tool returned nothing.
    Empty,
    /// The last block is not text.
    Unsupported,
}

impl BarkToolCallResponse {
    /// Reads a tool's result for `call`: the text of its last block, unless the
    /// tool reported an error, returned nothing, or ended with something other
    /// than text.
    pub fn try_parse(call: &BarkToolCall, is_error: bool, content: Vec<ToolOutput>) -> (r: Result<
        BarkToolCallResponse,
        ToolResultError,
    >)
        ensures
            is_error ==> r == Err::<BarkToolCallResponse, ToolResultError>(
                ToolResultError::Reported,
            ),
            !is_error && content@.len() == 0 ==> r == Err::<BarkToolCallResponse, ToolResultError>(
                ToolResultError::Empty,
            ),
            !is_error && content@.len() > 0 ==> match content@.last() {
                ToolOutput::Text(t) => r matches Ok(resp) && resp.id == call.id && resp.function_name
                    == call.function_name && resp.arguments == call.arguments && resp.result
                    == Some(t),
                ToolOutput::Other => r == Err::<BarkToolCallResponse, ToolResultError>(
                    ToolResultError::Unsupported,
                ),
            },
    {
        if is_error {
            return Err(ToolResultError::Reported);
        }
        let mut content = content;
        match content.pop() {
            None => Err(ToolResultError::Empty),
            Some(ToolOutput::Text(t)) => Ok(
                BarkToolCallResponse {
                    id: call.id.clone(),
                    function_name: call.function_name.clone(),
                    arguments: copy_opt(&call.arguments),
                    result: Some(t),
                },
            ),
            Some(ToolOutput::Other) => Err(ToolResultError::Unsupported),
        }
    }
}

} // verus!
