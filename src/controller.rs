use vstd::prelude::*;

use crate::messages::{
    copy_messages, extend_messages, msgs_view, text_message, text_msg, BarkMessage, BarkRole,
    MessageView,
};
use crate::store::VarMap;
use crate::template::{
    expand_line, expand_template, keys_of, lemma_unvisited_push, on_stack, pushed, unvisited,
};
use crate::text::{
    append_chars, chars_lt, chars_lt_exec, lemma_chars_lt_order, lemma_chars_lt_total, chars_of, eq_chars, eq_ignore_case_char, find_char, find_char_exec, lemma_find_char_bounds, slice_chars,
    trim_start, trim_start_exec, contains_exec, contains_seq, ends_with_exec, eq_ignore_case,
    eq_ignore_case_exec, extract_thoughts, starts_with_exec, string_of, strip_thoughts, thoughts,
    trim, trim_exec, without_thoughts,
};
use crate::values::{MessageValue, PromptValue, TextMatcher, TextValue, VarKey, VariableId};

verus! {

/// A lowercase hexadecimal digit.
pub open spec fn hex_digit(d: nat) -> char {
    if d < 10 {
        ((d + 48) as u8) as char
    } else {
        ((d + 87) as u8) as char
    }
}

/// How a character is written inside a JSON string: quote and backslash after
/// a backslash, the short escapes for backspace, tab, line feed, form feed and
/// carriage return, `\u00XX` for the other control characters, any other
/// character as it is.
pub open spec fn json_char(c: char) -> Seq<char> {
    let u = c as u32;
    if u == 0x22 {
        seq!['\\', '"']
    } else if u == 0x5c {
        seq!['\\', '\\']
    } else if u == 0x08 {
        seq!['\\', 'b']
    } else if u == 0x09 {
        seq!['\\', 't']
    } else if u == 0x0a {
        seq!['\\', 'n']
    } else if u == 0x0c {
        seq!['\\', 'f']
    } else if u == 0x0d {
        seq!['\\', 'r']
    } else if u < 0x20 {
        seq!['\\', 'u', '0', '0', hex_digit((u / 16) as nat), hex_digit((u % 16) as nat)]
    } else {
        seq![c]
    }
}

/// The characters of `s`, each written as in a JSON string.
pub open spec fn json_escaped(s: Seq<char>) -> Seq<char>
    decreases s.len(),
{
    if s.len() == 0 {
        Seq::empty()
    } else {
        json_escaped(s.drop_last()) + json_char(s.last())
    }
}

/// The JSON string literal that denotes `s`: its escaped characters between
/// quotes.
pub open spec fn json_string_of(s: Seq<char>) -> Seq<char> {
    seq!['"'] + json_escaped(s) + seq!['"']
}

/// Relies on `serde_json::to_string` applied to a string slice: it writes the
/// quote, each character through serde_json's escape table, and the closing
/// quote, and cannot fail writing to memory.
#[verifier::external_body]
fn json_quote(s: &str) -> (r: String)
    ensures
        r@ == json_string_of(s@),
{
    match serde_json::to_string(s) {
        Ok(r) => r,
        Err(_) => String::new(),
    }
}

/// The per-run store: text variables, embeddings (as the bit patterns of their
/// 32-bit floats), named prompts, named templates, and template files loaded by
/// path.
pub struct BarkController {
    pub text_variables: VarMap<String>,
    pub embedding_variables: VarMap<Vec<u32>>,
    pub prompts: VarMap<Vec<BarkMessage>>,
    pub templates: VarMap<Vec<MessageValue>>,
    pub template_files: VarMap<Vec<MessageValue>>,
}

/// The text stored under `id`, or empty.
pub open spec fn var_text(c: BarkController, id: VarKey) -> Seq<char> {
    if c.text_variables@.contains_key(id) {
        c.text_variables@[id]@
    } else {
        Seq::empty()
    }
}

/// What a text value resolves to.
pub open spec fn text_of(c: BarkController, t: TextValue) -> Seq<char>
    decreases t,
{
    match t {
        TextValue::Simple(s) => s@,
        TextValue::Variable(id) => var_text(c, id@),
        TextValue::Default(id, d) => if c.text_variables@.contains_key(id@) {
            c.text_variables@[id@]@
        } else {
            d@
        },
        TextValue::Thoughts(id) => thoughts(var_text(c, id@)),
        TextValue::WithoutThoughts(id) => without_thoughts(var_text(c, id@)),
        TextValue::Multi(ts) => texts_of(c, ts@),
        TextValue::Structured(es) => object_text(canonical(resolved_fields(c, es@))),
    }
}

/// The concatenation of the resolutions of `ts`.
pub open spec fn texts_of(c: BarkController, ts: Seq<TextValue>) -> Seq<char>
    decreases ts,
{
    if ts.len() == 0 {
        Seq::empty()
    } else {
        texts_of(c, ts.drop_last()) + text_of(c, ts.last())
    }
}

/// The members of a structured text with their values resolved, in the order
/// listed.
pub open spec fn resolved_fields(c: BarkController, es: Seq<(String, TextValue)>) -> Seq<
    (Seq<char>, Seq<char>),
>
    decreases es,
{
    if es.len() == 0 {
        Seq::empty()
    } else {
        resolved_fields(c, es.drop_last()).push((es.last().0@, text_of(c, es.last().1)))
    }
}

/// `s` with the member `(k, v)` put in: it replaces the member with key `k`,
/// or goes before the first member whose key comes after `k`.
pub open spec fn put(s: Seq<(Seq<char>, Seq<char>)>, k: Seq<char>, v: Seq<char>) -> Seq<
    (Seq<char>, Seq<char>),
>
    decreases s.len(),
{
    if s.len() == 0 {
        seq![(k, v)]
    } else if s[0].0 == k {
        seq![(k, v)] + s.drop_first()
    } else if chars_lt(k, s[0].0) {
        seq![(k, v)] + s
    } else {
        seq![s[0]] + put(s.drop_first(), k, v)
    }
}

/// The members put in one after the other: sorted by key, each key once, the
/// value listed last for a key winning.
pub open spec fn canonical(es: Seq<(Seq<char>, Seq<char>)>) -> Seq<(Seq<char>, Seq<char>)>
    decreases es.len(),
{
    if es.len() == 0 {
        Seq::empty()
    } else {
        put(canonical(es.drop_last()), es.last().0, es.last().1)
    }
}

/// One `"key":"value"` member of a JSON object.
pub open spec fn member_text(p: (Seq<char>, Seq<char>)) -> Seq<char> {
    json_string_of(p.0) + ":"@ + json_string_of(p.1)
}

/// The members, separated by commas.
pub open spec fn members_text(ps: Seq<(Seq<char>, Seq<char>)>) -> Seq<char>
    decreases ps.len(),
{
    if ps.len() == 0 {
        Seq::empty()
    } else if ps.len() == 1 {
        member_text(ps[0])
    } else {
        members_text(ps.drop_last()) + ","@ + member_text(ps.last())
    }
}

/// A JSON object with the members in the order given.
pub open spec fn object_text(ps: Seq<(Seq<char>, Seq<char>)>) -> Seq<char> {
    "{"@ + members_text(ps) + "}"@
}

/// The characters of the keys and values.
pub open spec fn pairs_view(v: Seq<(String, String)>) -> Seq<(Seq<char>, Seq<char>)> {
    v.map_values(|p: (String, String)| (p.0@, p.1@))
}

/// Where `k` goes in `s`: the first position whose key is `k` or comes after
/// it, and whether that key is `k`.
fn find_slot(s: &Vec<(String, String)>, k: &Vec<char>) -> (r: (usize, bool))
    ensures
        r.0 <= s@.len(),
        forall|j: int| 0 <= j < r.0 ==> #[trigger] s@[j].0@ != k@ && !chars_lt(k@, s@[j].0@),
        r.1 == (r.0 < s@.len() && s@[r.0 as int].0@ == k@),
        r.0 < s@.len() && !r.1 ==> chars_lt(k@, s@[r.0 as int].0@),
{
    let mut i: usize = 0;
    while i < s.len()
        invariant
            i <= s@.len(),
            forall|j: int| 0 <= j < i ==> #[trigger] s@[j].0@ != k@ && !chars_lt(k@, s@[j].0@),
        decreases s@.len() - i,
    {
        let key = chars_of(s[i].0.as_str());
        if eq_chars(key.as_slice(), k.as_slice()) {
            return (i, true);
        }
        if chars_lt_exec(k, &key) {
            return (i, false);
        }
        i += 1;
    }
    (i, false)
}

proof fn lemma_put_skip(s: Seq<(Seq<char>, Seq<char>)>, k: Seq<char>, v: Seq<char>, i: int)
    requires
        0 <= i <= s.len(),
        forall|j: int| 0 <= j < i ==> #[trigger] s[j].0 != k && !chars_lt(k, s[j].0),
    ensures
        put(s, k, v) == s.subrange(0, i) + put(s.subrange(i, s.len() as int), k, v),
    decreases i,
{
    if i == 0 {
        assert(s.subrange(0, s.len() as int) == s);
        assert(s.subrange(0, 0) + put(s, k, v) =~= put(s, k, v));
    } else {
        let t = s.drop_first();
        assert forall|j: int| 0 <= j < i - 1 implies #[trigger] t[j].0 != k && !chars_lt(k, t[j].0) by {
            assert(t[j] == s[j + 1]);
        }
        lemma_put_skip(t, k, v, i - 1);
        assert(s[0].0 != k && !chars_lt(k, s[0].0));
        assert(t.subrange(i - 1, t.len() as int) =~= s.subrange(i, s.len() as int));
        assert(seq![s[0]] + t.subrange(0, i - 1) =~= s.subrange(0, i));
        assert(put(s, k, v) == seq![s[0]] + put(t, k, v));
        assert(put(s, k, v) =~= s.subrange(0, i) + put(s.subrange(i, s.len() as int), k, v));
    }
}

/// Puts a member in a list of members.
fn put_member(fields: &mut Vec<(String, String)>, k: String, v: String)
    ensures
        pairs_view(final(fields)@) == put(pairs_view(old(fields)@), k@, v@),
{
    let kc = chars_of(k.as_str());
    let (i, found) = find_slot(fields, &kc);
    let ghost s = pairs_view(fields@);
    proof {
        assert forall|j: int| 0 <= j < i implies #[trigger] s[j].0 != k@ && !chars_lt(k@, s[j].0) by {
            assert(s[j].0 == fields@[j].0@);
        }
        lemma_put_skip(s, k@, v@, i as int);
    }
    let ghost rest = s.subrange(i as int, s.len() as int);
    if found {
        assert(rest[0] == s[i as int]);
        fields.set(i, (k, v));
        assert(pairs_view(fields@) =~= s.subrange(0, i as int) + (seq![(k@, v@)] + rest.drop_first()));
    } else {
        if i < fields.len() {
            assert(rest[0] == s[i as int]);
        }
        fields.insert(i, (k, v));
        assert(pairs_view(fields@) =~= s.subrange(0, i as int) + (seq![(k@, v@)] + rest));
    }
}

/// Writes a JSON object with the members in the order given.
fn object_exec(fields: &Vec<(String, String)>) -> (r: String)
    ensures
        r@ == object_text(pairs_view(fields@)),
{
    let ghost ps = pairs_view(fields@);
    let mut out: Vec<char> = chars_of("{");
    let ghost open = out@;
    let mut i: usize = 0;
    while i < fields.len()
        invariant
            i <= fields@.len(),
            ps == pairs_view(fields@),
            open == "{"@,
            out@ == open + members_text(ps.subrange(0, i as int)),
        decreases fields@.len() - i,
    {
        let key = json_quote(fields[i].0.as_str());
        let quoted = json_quote(fields[i].1.as_str());
        let mut member = chars_of(key.as_str());
        append_chars(&mut member, chars_of(":").as_slice());
        append_chars(&mut member, chars_of(quoted.as_str()).as_slice());
        assert(member@ == member_text(ps[i as int]));
        if i > 0 {
            append_chars(&mut out, chars_of(",").as_slice());
        }
        append_chars(&mut out, member.as_slice());
        assert(ps.subrange(0, i + 1).drop_last() == ps.subrange(0, i as int));
        assert(ps.subrange(0, i + 1).last() == ps[i as int]);
        assert(ps.subrange(0, i + 1)[0] == ps[0]);
        assert(out@ =~= open + members_text(ps.subrange(0, i + 1)));
        i += 1;
    }
    append_chars(&mut out, chars_of("}").as_slice());
    assert(ps.subrange(0, ps.len() as int) == ps);
    string_of(out.as_slice())
}

/// Whether matcher `m` holds of the resolved text `s`.
pub open spec fn matcher_holds(c: BarkController, s: Seq<char>, m: TextMatcher) -> bool
    decreases m,
{
    match m {
        TextMatcher::Exact(v) => eq_ignore_case(trim(s), trim(text_of(c, v))),
        TextMatcher::Contains(v) => contains_seq(s, text_of(c, v)),
        TextMatcher::StartsWith(v) => text_of(c, v).is_prefix_of(s),
        TextMatcher::EndsWith(v) => text_of(c, v).is_suffix_of(s),
        TextMatcher::Not(inner) => !matcher_holds(c, s, *inner),
        TextMatcher::Any(ms) => any_holds(c, s, ms@),
        TextMatcher::All(ms) => all_holds(c, s, ms@),
    }
}

/// Whether some matcher of `ms` holds of `s`.
pub open spec fn any_holds(c: BarkController, s: Seq<char>, ms: Seq<TextMatcher>) -> bool
    decreases ms,
{
    ms.len() > 0 && (any_holds(c, s, ms.drop_last()) || matcher_holds(c, s, ms.last()))
}

/// Whether every matcher of `ms` holds of `s`.
pub open spec fn all_holds(c: BarkController, s: Seq<char>, ms: Seq<TextMatcher>) -> bool
    decreases ms,
{
    ms.len() == 0 || (all_holds(c, s, ms.drop_last()) && matcher_holds(c, s, ms.last()))
}

/// The stored prompt under `id`, or empty.
pub open spec fn stored_prompt(c: BarkController, id: VarKey) -> Seq<MessageView> {
    if c.prompts@.contains_key(id) {
        msgs_view(c.prompts@[id]@)
    } else {
        Seq::empty()
    }
}

/// The messages a prompt producer yields. `visited` holds the templates being
/// expanded: a template that refers back to one of them contributes nothing.
pub open spec fn prompt_of(c: BarkController, p: PromptValue, visited: Seq<VarKey>) -> Seq<
    MessageView,
>
    decreases unvisited(c.templates@, visited), 1nat, p,
    when c.templates@.dom().finite()
    via prompt_of_decreases
{
    match p {
        PromptValue::Variable(id) => stored_prompt(c, id@),
        PromptValue::Quick(s) => seq![text_msg(BarkRole::User, s@)],
        PromptValue::TemplateFile(t) => {
            let path = VarKey::User(text_of(c, t));
            if c.template_files@.contains_key(path) {
                chat_of(c, c.template_files@[path]@, visited)
            } else {
                Seq::empty()
            }
        },
        PromptValue::Template(id) => if c.templates@.contains_key(id@) && !visited.contains(id@) {
            chat_of(c, c.templates@[id@]@, visited.push(id@))
        } else {
            Seq::empty()
        },
        PromptValue::Chat(ms) => chat_of(c, ms@, visited),
        PromptValue::Joined(ps) => joined_of(c, ps@, visited),
    }
}

/// The concatenation of the prompts that `ps` yield.
pub open spec fn joined_of(c: BarkController, ps: Seq<PromptValue>, visited: Seq<VarKey>) -> Seq<
    MessageView,
>
    decreases unvisited(c.templates@, visited), 1nat, ps,
    when c.templates@.dom().finite()
{
    if ps.len() == 0 {
        Seq::empty()
    } else {
        joined_of(c, ps.drop_last(), visited) + prompt_of(c, ps.last(), visited)
    }
}

/// The messages that a list of authored messages yields.
pub open spec fn chat_of(c: BarkController, ms: Seq<MessageValue>, visited: Seq<VarKey>) -> Seq<
    MessageView,
>
    decreases unvisited(c.templates@, visited), 0nat, ms,
    when c.templates@.dom().finite()
{
    if ms.len() == 0 {
        Seq::empty()
    } else {
        chat_of(c, ms.drop_last(), visited) + message_of(c, ms.last(), visited)
    }
}

/// The messages that one authored message yields.
pub open spec fn message_of(c: BarkController, m: MessageValue, visited: Seq<VarKey>) -> Seq<
    MessageView,
>
    decreases unvisited(c.templates@, visited), 0nat, m,
    when c.templates@.dom().finite()
    via message_of_decreases
{
    match m {
        MessageValue::User(s) => seq![text_msg(BarkRole::User, s@)],
        MessageValue::System(s) => seq![text_msg(BarkRole::System, s@)],
        MessageValue::Assistant(s) => seq![text_msg(BarkRole::Assistant, s@)],
        MessageValue::UserVar(id) => seq![text_msg(BarkRole::User, var_text(c, id@))],
        MessageValue::SystemVar(id) => seq![text_msg(BarkRole::System, var_text(c, id@))],
        MessageValue::AssistantVar(id) => seq![text_msg(BarkRole::Assistant, var_text(c, id@))],
        MessageValue::UserVal(t) => seq![text_msg(BarkRole::User, text_of(c, t))],
        MessageValue::SystemVal(t) => seq![text_msg(BarkRole::System, text_of(c, t))],
        MessageValue::AssistantVal(t) => seq![text_msg(BarkRole::Assistant, text_of(c, t))],
        MessageValue::SubPrompt(id) => stored_prompt(c, id@),
        MessageValue::Template(id) => if c.templates@.contains_key(id@) && !visited.contains(
            id@,
        ) {
            chat_of(c, c.templates@[id@]@, visited.push(id@))
        } else {
            Seq::empty()
        },
    }
}

#[via_fn]
proof fn prompt_of_decreases(c: BarkController, p: PromptValue, visited: Seq<VarKey>) {
    if let PromptValue::Template(id) = p {
        if c.templates@.contains_key(id@) && !visited.contains(id@) {
            lemma_unvisited_push(c.templates@, visited, id@);
        }
    }
}

#[via_fn]
proof fn message_of_decreases(c: BarkController, m: MessageValue, visited: Seq<VarKey>) {
    if let MessageValue::Template(id) = m {
        if c.templates@.contains_key(id@) && !visited.contains(id@) {
            lemma_unvisited_push(c.templates@, visited, id@);
        }
    }
}

/// The messages of `s` that are not from the system role, in order.
pub open spec fn without_system(s: Seq<MessageView>) -> Seq<MessageView>
    decreases s.len(),
{
    if s.len() == 0 {
        Seq::empty()
    } else if s.last().role == BarkRole::System {
        without_system(s.drop_last())
    } else {
        without_system(s.drop_last()).push(s.last())
    }
}

/// `m` with the entries of `es` stored under user slots named by their keys,
/// later entries winning.
pub open spec fn with_user_entries<V>(m: Map<VarKey, V>, es: Seq<(String, V)>) -> Map<VarKey, V>
    decreases es.len(),
{
    if es.len() == 0 {
        m
    } else {
        with_user_entries(m, es.drop_last()).insert(VarKey::User(es.last().0@), es.last().1)
    }
}

/// Storing user entries leaves a reserved slot as it was.
pub proof fn lemma_entries_keep_reserved<V>(m: Map<VarKey, V>, x: V, es: Seq<(String, V)>)
    ensures
        with_user_entries(m.insert(VarKey::PreEmbed, x), es) == with_user_entries(m, es).insert(
            VarKey::PreEmbed,
            x,
        ),
    decreases es.len(),
{
    if es.len() > 0 {
        lemma_entries_keep_reserved(m, x, es.drop_last());
        assert(with_user_entries(m.insert(VarKey::PreEmbed, x), es) =~= with_user_entries(
            m,
            es,
        ).insert(VarKey::PreEmbed, x));
    }
}

/// The lines of `s` as `str::lines` gives them: split at each line feed, a
/// carriage return before it dropped, no final empty line.
pub open spec fn lines_from(s: Seq<char>, from: int) -> Seq<Seq<char>>
    decreases s.len() - from,
    via lines_from_decreases
{
    if from < 0 || from >= s.len() {
        Seq::empty()
    } else {
        match find_char(s, from, '\n') {
            None => seq![strip_cr(s.subrange(from, s.len() as int))],
            Some(i) => seq![strip_cr(s.subrange(from, i))] + lines_from(s, i + 1),
        }
    }
}

#[via_fn]
proof fn lines_from_decreases(s: Seq<char>, from: int) {
    lemma_find_char_bounds(s, from, '\n');
}

/// `l` without one trailing carriage return.
pub open spec fn strip_cr(l: Seq<char>) -> Seq<char> {
    if l.len() > 0 && l.last() == '\r' {
        l.drop_last()
    } else {
        l
    }
}

/// How one expanded line of template text reads as a message: a `user:`,
/// `system:` or `assistant:` prefix picks the role and is dropped with the
/// white space after it; any other line is a user line, left-trimmed.
pub open spec fn classified(m: MessageValue, line: Seq<char>) -> bool {
    if "user:"@.is_prefix_of(line) {
        m is User && m->User_0@ == trim_start(line.subrange("user:"@.len() as int, line.len() as int))
    } else if "system:"@.is_prefix_of(line) {
        m is System && m->System_0@ == trim_start(
            line.subrange("system:"@.len() as int, line.len() as int),
        )
    } else if "assistant:"@.is_prefix_of(line) {
        m is Assistant && m->Assistant_0@ == trim_start(
            line.subrange("assistant:"@.len() as int, line.len() as int),
        )
    } else {
        m is User && m->User_0@ == trim_start(line)
    }
}

/// `b` is `a` with the text variable `k` set to a string whose characters are `s`.
pub open spec fn text_set(a: BarkController, b: BarkController, k: VarKey, s: Seq<char>) -> bool {
    &&& b.text_variables@ == a.text_variables@.insert(k, b.text_variables@[k])
    &&& b.text_variables@[k]@ == s
    &&& a.embedding_variables@ == b.embedding_variables@
    &&& a.prompts@ == b.prompts@
    &&& a.templates@ == b.templates@
    &&& a.template_files@ == b.template_files@
}

/// `b` is `a` with the prompt `k` set to messages whose values are `m`.
pub open spec fn prompt_set(a: BarkController, b: BarkController, k: VarKey, m: Seq<MessageView>) -> bool {
    &&& same_but_prompts(a, b)
    &&& b.prompts@ == a.prompts@.insert(k, b.prompts@[k])
    &&& msgs_view(b.prompts@[k]@) == m
}

/// Every store but the prompts is the same in `a` and `b`.
pub open spec fn same_but_prompts(a: BarkController, b: BarkController) -> bool {
    &&& a.text_variables@ == b.text_variables@
    &&& a.embedding_variables@ == b.embedding_variables@
    &&& a.templates@ == b.templates@
    &&& a.template_files@ == b.template_files@
}

/// The prefix that the embedding query variable starts out with.
pub open spec fn pre_embed_text() -> Seq<char> {
    "Represent this sentence for searching relevant passages: "@
}

impl BarkController {
    /// Every store is well formed.
    pub open spec fn wf(&self) -> bool {
        &&& self.text_variables.wf()
        &&& self.embedding_variables.wf()
        &&& self.prompts.wf()
        &&& self.templates.wf()
        &&& self.template_files.wf()
    }

    /// A fresh controller: only the embedding query prefix is set.
    pub fn new() -> (r: BarkController)
        ensures
            r.wf(),
            r.text_variables@ == Map::<VarKey, String>::empty().insert(
                VarKey::PreEmbed,
                r.text_variables@[VarKey::PreEmbed],
            ),
            r.text_variables@[VarKey::PreEmbed]@ == pre_embed_text(),
            r.embedding_variables@ == Map::<VarKey, Vec<u32>>::empty(),
            r.prompts@ == Map::<VarKey, Vec<BarkMessage>>::empty(),
            r.templates@ == Map::<VarKey, Vec<MessageValue>>::empty(),
            r.template_files@ == Map::<VarKey, Vec<MessageValue>>::empty(),
    {
        let mut text_variables = VarMap::new();
        text_variables.insert(
            VariableId::PreEmbed,
            "Represent this sentence for searching relevant passages: ".to_string(),
        );
        BarkController {
            text_variables,
            embedding_variables: VarMap::new(),
            prompts: VarMap::new(),
            templates: VarMap::new(),
            template_files: VarMap::new(),
        }
    }

    /// Expands `{{...}}` placeholders of `line` against the text variables.
    pub fn replace_template_variables(&self, line: &str) -> (r: String)
        requires
            self.wf(),
        ensures
            r@ == expand_line(self.text_variables@, line@),
    {
        expand_template(&self.text_variables, line)
    }

    /// The text stored under `id`, or empty.
    fn variable_text(&self, id: &VariableId) -> (r: String)
        requires
            self.wf(),
        ensures
            r@ == var_text(*self, id@),
    {
        match self.text_variables.get(id) {
            Some(s) => s.clone(),
            None => String::new(),
        }
    }

    /// Resolves a text value.
    pub fn get_text(&self, text: &TextValue) -> (r: String)
        requires
            self.wf(),
        ensures
            r@ == text_of(*self, *text),
        decreases text,
    {
        match text {
            TextValue::Simple(s) => s.clone(),
            TextValue::Variable(id) => self.variable_text(id),
            TextValue::Default(id, d) => match self.text_variables.get(id) {
                Some(s) => s.clone(),
                None => d.clone(),
            },
            TextValue::Thoughts(id) => extract_thoughts(&self.variable_text(id)),
            TextValue::WithoutThoughts(id) => strip_thoughts(&self.variable_text(id)),
            TextValue::Multi(ts) => {
                let mut out: Vec<char> = Vec::new();
                let mut i: usize = 0;
                while i < ts.len()
                    invariant
                        self.wf(),
                        i <= ts@.len(),
                        out@ == texts_of(*self, ts@.subrange(0, i as int)),
                        *text == TextValue::Multi(*ts),
                    decreases ts@.len() - i,
                {
                    proof {
                        let tsv: Vec<TextValue> = *ts;
                        assert(decreases_to!(*text => text->Multi_0));
                        assert(decreases_to!(tsv => tsv[i as int]));
                        assert(decreases_to!(*text => tsv@[i as int]));
                    }
                    let part = self.get_text(&ts[i]);
                    append_chars(&mut out, chars_of(part.as_str()).as_slice());
                    assert(ts@.subrange(0, i + 1).drop_last() == ts@.subrange(0, i as int));
                    i += 1;
                }
                assert(ts@.subrange(0, ts@.len() as int) == ts@);
                string_of(out.as_slice())
            },
            TextValue::Structured(es) => {
                let mut fields: Vec<(String, String)> = Vec::new();
                let mut i: usize = 0;
                while i < es.len()
                    invariant
                        self.wf(),
                        i <= es@.len(),
                        *text == TextValue::Structured(*es),
                        pairs_view(fields@) == canonical(
                            resolved_fields(*self, es@.subrange(0, i as int)),
                        ),
                    decreases es@.len() - i,
                {
                    proof {
                        let esv: Vec<(String, TextValue)> = *es;
                        assert(decreases_to!(*text => text->Structured_0));
                        assert(decreases_to!(esv => esv[i as int]));
                        assert(decreases_to!(esv[i as int] => esv[i as int].1));
                        assert(decreases_to!(*text => esv@[i as int].1));
                    }
                    let value = self.get_text(&es[i].1);
                    put_member(&mut fields, es[i].0.clone(), value);
                    proof {
                        let pre = es@.subrange(0, i + 1);
                        assert(pre.drop_last() == es@.subrange(0, i as int));
                        assert(pre.last() == es@[i as int]);
                        assert(resolved_fields(*self, pre).drop_last() == resolved_fields(
                            *self,
                            es@.subrange(0, i as int),
                        ));
                    }
                    i += 1;
                }
                assert(es@.subrange(0, es@.len() as int) == es@);
                object_exec(&fields)
            },
        }
    }

    fn matches_resolved(&self, s: &Vec<char>, matcher: &TextMatcher) -> (r: bool)
        requires
            self.wf(),
        ensures
            r == matcher_holds(*self, s@, *matcher),
        decreases matcher,
    {
        match matcher {
            TextMatcher::Exact(v) => {
                let p = chars_of(self.get_text(v).as_str());
                eq_ignore_case_exec(&trim_exec(s), &trim_exec(&p))
            },
            TextMatcher::Contains(v) => contains_exec(s, &chars_of(self.get_text(v).as_str())),
            TextMatcher::StartsWith(v) => starts_with_exec(s, &chars_of(self.get_text(v).as_str())),
            TextMatcher::EndsWith(v) => ends_with_exec(s, &chars_of(self.get_text(v).as_str())),
            TextMatcher::Not(inner) => !self.matches_resolved(s, inner),
            TextMatcher::Any(ms) => {
                let mut found = false;
                let mut i: usize = 0;
                while i < ms.len()
                    invariant
                        self.wf(),
                        i <= ms@.len(),
                        found == any_holds(*self, s@, ms@.subrange(0, i as int)),
                        *matcher == TextMatcher::Any(*ms),
                    decreases ms@.len() - i,
                {
                    proof {
                        let msv: Vec<TextMatcher> = *ms;
                        assert(decreases_to!(*matcher => matcher->Any_0));
                        assert(decreases_to!(msv => msv[i as int]));
                        assert(decreases_to!(*matcher => msv@[i as int]));
                    }
                    let here = self.matches_resolved(s, &ms[i]);
                    found = found || here;
                    assert(ms@.subrange(0, i + 1).drop_last() == ms@.subrange(0, i as int));
                    i += 1;
                }
                assert(ms@.subrange(0, ms@.len() as int) == ms@);
                found
            },
            TextMatcher::All(ms) => {
                let mut all = true;
                let mut i: usize = 0;
                while i < ms.len()
                    invariant
                        self.wf(),
                        i <= ms@.len(),
                        all == all_holds(*self, s@, ms@.subrange(0, i as int)),
                        *matcher == TextMatcher::All(*ms),
                    decreases ms@.len() - i,
                {
                    proof {
                        let msv: Vec<TextMatcher> = *ms;
                        assert(decreases_to!(*matcher => matcher->All_0));
                        assert(decreases_to!(msv => msv[i as int]));
                        assert(decreases_to!(*matcher => msv@[i as int]));
                    }
                    let here = self.matches_resolved(s, &ms[i]);
                    all = all && here;
                    assert(ms@.subrange(0, i + 1).drop_last() == ms@.subrange(0, i as int));
                    i += 1;
                }
                assert(ms@.subrange(0, ms@.len() as int) == ms@);
                all
            },
        }
    }

    fn prompt_rec(&self, p: &PromptValue, visited: &Vec<VariableId>) -> (r: Vec<BarkMessage>)
        requires
            self.wf(),
        ensures
            msgs_view(r@) == prompt_of(*self, *p, keys_of(visited@)),
        decreases unvisited(self.templates@, keys_of(visited@)), 3nat, p,
    {
        proof {
            self.templates.lemma_finite();
        }
        match p {
            PromptValue::Variable(id) => self.stored(id),
            PromptValue::Quick(s) => {
                let mut r: Vec<BarkMessage> = Vec::new();
                r.push(text_message(BarkRole::User, s.clone()));
                assert(msgs_view(r@) =~= seq![text_msg(BarkRole::User, s@)]);
                r
            },
            PromptValue::TemplateFile(t) => {
                let path = VariableId::User(self.get_text(t));
                match self.template_files.get(&path) {
                    Some(ms) => self.chat_rec(ms, visited),
                    None => Vec::new(),
                }
            },
            PromptValue::Template(id) => self.template_rec(id, visited),
            PromptValue::Chat(ms) => self.chat_rec(ms, visited),
            PromptValue::Joined(ps) => {
                let mut out: Vec<BarkMessage> = Vec::new();
                let mut i: usize = 0;
                while i < ps.len()
                    invariant
                        self.wf(),
                        i <= ps@.len(),
                        *p == PromptValue::Joined(*ps),
                        self.templates@.dom().finite(),
                        msgs_view(out@) == joined_of(
                            *self,
                            ps@.subrange(0, i as int),
                            keys_of(visited@),
                        ),
                    decreases ps@.len() - i,
                {
                    proof {
                        let psv: Vec<PromptValue> = *ps;
                        assert(decreases_to!(*p => p->Joined_0));
                        assert(decreases_to!(psv => psv[i as int]));
                        assert(decreases_to!(*p => psv@[i as int]));
                    }
                    let part = self.prompt_rec(&ps[i], visited);
                    let ghost before = out@;
                    extend_messages(&mut out, &part);
                    assert(ps@.subrange(0, i + 1).drop_last() == ps@.subrange(0, i as int));
                    assert(msgs_view(out@) =~= msgs_view(before) + msgs_view(part@));
                    i += 1;
                }
                assert(ps@.subrange(0, ps@.len() as int) == ps@);
                out
            },
        }
    }

    fn stored(&self, id: &VariableId) -> (r: Vec<BarkMessage>)
        requires
            self.wf(),
        ensures
            msgs_view(r@) == stored_prompt(*self, id@),
    {
        match self.prompts.get(id) {
            Some(v) => copy_messages(v),
            None => Vec::new(),
        }
    }

    fn template_rec(&self, id: &VariableId, visited: &Vec<VariableId>) -> (r: Vec<BarkMessage>)
        requires
            self.wf(),
        ensures
            self.templates@.contains_key(id@) && !keys_of(visited@).contains(id@) ==> msgs_view(
                r@,
            ) == chat_of(*self, self.templates@[id@]@, keys_of(visited@).push(id@)),
            !(self.templates@.contains_key(id@) && !keys_of(visited@).contains(id@)) ==> r@.len()
                == 0,
        decreases unvisited(self.templates@, keys_of(visited@)), 1nat, *id,
    {
        proof {
            self.templates.lemma_finite();
        }
        if on_stack(visited, id) {
            return Vec::new();
        }
        match self.templates.get(id) {
            Some(ms) => {
                let next = pushed(visited, id);
                proof {
                    lemma_unvisited_push(self.templates@, keys_of(visited@), id@);
                }
                self.chat_rec(ms, &next)
            },
            None => Vec::new(),
        }
    }

    fn chat_rec(&self, ms: &Vec<MessageValue>, visited: &Vec<VariableId>) -> (r: Vec<BarkMessage>)
        requires
            self.wf(),
        ensures
            msgs_view(r@) == chat_of(*self, ms@, keys_of(visited@)),
        decreases unvisited(self.templates@, keys_of(visited@)), 2nat, ms@,
    {
        proof {
            self.templates.lemma_finite();
        }
        let mut out: Vec<BarkMessage> = Vec::new();
        let mut i: usize = 0;
        while i < ms.len()
            invariant
                self.wf(),
                i <= ms@.len(),
                self.templates@.dom().finite(),
                msgs_view(out@) == chat_of(*self, ms@.subrange(0, i as int), keys_of(visited@)),
            decreases ms@.len() - i,
        {
            assert(decreases_to!(ms@ => ms@[i as int]));
            let part = self.message_rec(&ms[i], visited);
            let ghost before = out@;
            extend_messages(&mut out, &part);
            assert(ms@.subrange(0, i + 1).drop_last() == ms@.subrange(0, i as int));
            assert(msgs_view(out@) =~= msgs_view(before) + msgs_view(part@));
            i += 1;
        }
        assert(ms@.subrange(0, ms@.len() as int) == ms@);
        out
    }

    fn one(&self, role: BarkRole, s: String) -> (r: Vec<BarkMessage>)
        ensures
            msgs_view(r@) == seq![text_msg(role, s@)],
    {
        let mut r: Vec<BarkMessage> = Vec::new();
        r.push(text_message(role, s));
        assert(msgs_view(r@) =~= seq![text_msg(role, s@)]);
        r
    }

    fn message_rec(&self, m: &MessageValue, visited: &Vec<VariableId>) -> (r: Vec<BarkMessage>)
        requires
            self.wf(),
        ensures
            msgs_view(r@) == message_of(*self, *m, keys_of(visited@)),
        decreases unvisited(self.templates@, keys_of(visited@)), 2nat, *m,
    {
        proof {
            self.templates.lemma_finite();
        }
        match m {
            MessageValue::User(s) => self.one(BarkRole::User, s.clone()),
            MessageValue::System(s) => self.one(BarkRole::System, s.clone()),
            MessageValue::Assistant(s) => self.one(BarkRole::Assistant, s.clone()),
            MessageValue::UserVar(id) => self.one(BarkRole::User, self.variable_text(id)),
            MessageValue::SystemVar(id) => self.one(BarkRole::System, self.variable_text(id)),
            MessageValue::AssistantVar(id) => self.one(BarkRole::Assistant, self.variable_text(id)),
            MessageValue::UserVal(t) => self.one(BarkRole::User, self.get_text(t)),
            MessageValue::SystemVal(t) => self.one(BarkRole::System, self.get_text(t)),
            MessageValue::AssistantVal(t) => self.one(BarkRole::Assistant, self.get_text(t)),
            MessageValue::SubPrompt(id) => self.stored(id),
            MessageValue::Template(id) => self.template_rec(id, visited),
        }
    }

    /// The messages that a prompt producer yields.
    pub fn get_prompt(&self, prompt: &PromptValue) -> (r: Vec<BarkMessage>)
        requires
            self.wf(),
        ensures
            msgs_view(r@) == prompt_of(*self, *prompt, Seq::empty()),
    {
        let empty: Vec<VariableId> = Vec::new();
        assert(keys_of(empty@) =~= Seq::<VarKey>::empty());
        self.prompt_rec(prompt, &empty)
    }

    /// Stores the prompt that `messages` yields under `id`, replacing what was there.
    pub fn start_prompt(&mut self, id: VariableId, messages: &PromptValue)
        requires
            old(self).wf(),
        ensures
            final(self).wf(),
            same_but_prompts(*old(self), *final(self)),
            final(self).prompts@ == old(self).prompts@.insert(id@, final(self).prompts@[id@]),
            msgs_view(final(self).prompts@[id@]@) == prompt_of(*old(self), *messages, Seq::empty()),
    {
        let prompt = self.get_prompt(messages);
        self.prompts.insert(id, prompt);
    }

    /// Appends the prompt that `messages` yields to the prompt under `id`,
    /// creating it when absent.
    pub fn extend_prompt(&mut self, id: VariableId, messages: &PromptValue)
        requires
            old(self).wf(),
        ensures
            final(self).wf(),
            same_but_prompts(*old(self), *final(self)),
            final(self).prompts@ == old(self).prompts@.insert(id@, final(self).prompts@[id@]),
            msgs_view(final(self).prompts@[id@]@) == stored_prompt(*old(self), id@) + prompt_of(
                *old(self),
                *messages,
                Seq::empty(),
            ),
    {
        let prompt = self.get_prompt(messages);
        let mut existing = self.stored(&id);
        let ghost before = existing@;
        extend_messages(&mut existing, &prompt);
        assert(msgs_view(existing@) =~= msgs_view(before) + msgs_view(prompt@));
        self.prompts.insert(id, existing);
    }

    /// Replaces the system messages of the prompt under `id`: the new prompt
    /// comes first, then the old non-system messages in their order.
    pub fn replace_system_prompt(&mut self, id: VariableId, messages: &PromptValue)
        requires
            old(self).wf(),
        ensures
            final(self).wf(),
            same_but_prompts(*old(self), *final(self)),
            final(self).prompts@ == old(self).prompts@.insert(id@, final(self).prompts@[id@]),
            msgs_view(final(self).prompts@[id@]@) == prompt_of(*old(self), *messages, Seq::empty())
                + without_system(stored_prompt(*old(self), id@)),
    {
        let mut prompt = self.get_prompt(messages);
        let existing = self.stored(&id);
        let ghost start = msgs_view(prompt@);
        let mut i: usize = 0;
        while i < existing.len()
            invariant
                i <= existing@.len(),
                msgs_view(prompt@) == start + without_system(
                    msgs_view(existing@.subrange(0, i as int)),
                ),
            decreases existing@.len() - i,
        {
            let ghost before = prompt@;
            assert(msgs_view(existing@.subrange(0, i + 1)).drop_last() =~= msgs_view(
                existing@.subrange(0, i as int),
            ));
            assert(msgs_view(existing@.subrange(0, i + 1)).last() == existing@[i as int]@);
            if existing[i].role != BarkRole::System {
                prompt.push(existing[i].copy());
                assert(msgs_view(prompt@) =~= msgs_view(before).push(existing@[i as int]@));
            }
            i += 1;
        }
        assert(existing@.subrange(0, existing@.len() as int) == existing@);
        self.prompts.insert(id, prompt);
    }

    /// A fresh controller with the given text variables and templates stored
    /// under user slots named by their keys.
    pub fn new_preloaded(
        preloaded_text: Vec<(String, String)>,
        preloaded_templates: Vec<(String, Vec<MessageValue>)>,
    ) -> (r: BarkController)
        ensures
            r.wf(),
            r.text_variables@ == with_user_entries(
                Map::<VarKey, String>::empty(),
                preloaded_text@,
            ).insert(VarKey::PreEmbed, r.text_variables@[VarKey::PreEmbed]),
            r.text_variables@[VarKey::PreEmbed]@ == pre_embed_text(),
            r.templates@ == with_user_entries(
                Map::<VarKey, Vec<MessageValue>>::empty(),
                preloaded_templates@,
            ),
            r.embedding_variables@ == Map::<VarKey, Vec<u32>>::empty(),
            r.prompts@ == Map::<VarKey, Vec<BarkMessage>>::empty(),
            r.template_files@ == Map::<VarKey, Vec<MessageValue>>::empty(),
    {
        let mut r = BarkController::new();
        let ghost first = r.text_variables@;
        let ghost all_texts = preloaded_text@;
        let mut texts = preloaded_text;
        while texts.len() > 0
            invariant
                r.wf(),
                texts@.len() <= all_texts.len(),
                texts@ == all_texts.subrange(all_texts.len() - texts@.len(), all_texts.len() as int),
                r.text_variables@ == with_user_entries(
                    first,
                    all_texts.subrange(0, all_texts.len() - texts@.len()),
                ),
                r.templates@ == Map::<VarKey, Vec<MessageValue>>::empty(),
                r.embedding_variables@ == Map::<VarKey, Vec<u32>>::empty(),
                r.prompts@ == Map::<VarKey, Vec<BarkMessage>>::empty(),
                r.template_files@ == Map::<VarKey, Vec<MessageValue>>::empty(),
            decreases texts@.len(),
        {
            let ghost done = all_texts.len() - texts@.len();
            let (k, v) = texts.remove(0);
            assert(all_texts.subrange(0, done + 1).drop_last() == all_texts.subrange(0, done));
            r.text_variables.insert(VariableId::User(k), v);
        }
        assert(all_texts.subrange(0, all_texts.len() as int) == all_texts);
        proof {
            lemma_entries_keep_reserved(
                Map::<VarKey, String>::empty(),
                first[VarKey::PreEmbed],
                all_texts,
            );
            assert(first == Map::<VarKey, String>::empty().insert(
                VarKey::PreEmbed,
                first[VarKey::PreEmbed],
            ));
        }
        let ghost all_templates = preloaded_templates@;
        let mut templates = preloaded_templates;
        while templates.len() > 0
            invariant
                r.wf(),
                templates@.len() <= all_templates.len(),
                templates@ == all_templates.subrange(
                    all_templates.len() - templates@.len(),
                    all_templates.len() as int,
                ),
                r.templates@ == with_user_entries(
                    Map::<VarKey, Vec<MessageValue>>::empty(),
                    all_templates.subrange(0, all_templates.len() - templates@.len()),
                ),
                r.text_variables@ == with_user_entries(first, all_texts),
                r.embedding_variables@ == Map::<VarKey, Vec<u32>>::empty(),
                r.prompts@ == Map::<VarKey, Vec<BarkMessage>>::empty(),
                r.template_files@ == Map::<VarKey, Vec<MessageValue>>::empty(),
            decreases templates@.len(),
        {
            let ghost done = all_templates.len() - templates@.len();
            let (k, v) = templates.remove(0);
            assert(all_templates.subrange(0, done + 1).drop_last() == all_templates.subrange(
                0,
                done,
            ));
            r.templates.insert(VariableId::User(k), v);
        }
        assert(all_templates.subrange(0, all_templates.len() as int) == all_templates);
        r
    }

    /// Reads one expanded line of template text as a message.
    fn classify_line(line: &Vec<char>) -> (r: MessageValue)
        ensures
            classified(r, line@),
    {
        let user_tag = chars_of("user:");
        let system_tag = chars_of("system:");
        let assistant_tag = chars_of("assistant:");
        if starts_with_exec(line, &user_tag) {
            let rest = slice_chars(line, user_tag.len(), line.len());
            MessageValue::User(string_of(trim_start_exec(&rest).as_slice()))
        } else if starts_with_exec(line, &system_tag) {
            let rest = slice_chars(line, system_tag.len(), line.len());
            MessageValue::System(string_of(trim_start_exec(&rest).as_slice()))
        } else if starts_with_exec(line, &assistant_tag) {
            let rest = slice_chars(line, assistant_tag.len(), line.len());
            MessageValue::Assistant(string_of(trim_start_exec(&rest).as_slice()))
        } else {
            MessageValue::User(string_of(trim_start_exec(line).as_slice()))
        }
    }

    /// Parses template text: each line is expanded against the text variables,
    /// then read as a message by its role prefix.
    pub fn template_from_str(&self, template_str: &str) -> (r: Vec<MessageValue>)
        requires
            self.wf(),
        ensures
            r@.len() == lines_from(template_str@, 0).len(),
            forall|i: int|
                0 <= i < r@.len() ==> classified(
                    #[trigger] r@[i],
                    expand_line(self.text_variables@, lines_from(template_str@, 0)[i]),
                ),
    {
        let s = chars_of(template_str);
        let mut out: Vec<MessageValue> = Vec::new();
        let ghost done: Seq<Seq<char>> = Seq::empty();
        let mut pos: usize = 0;
        while pos < s.len()
            invariant
                self.wf(),
                s@ == template_str@,
                pos <= s@.len(),
                done + lines_from(s@, pos as int) == lines_from(s@, 0),
                out@.len() == done.len(),
                forall|i: int|
                    0 <= i < out@.len() ==> classified(
                        #[trigger] out@[i],
                        expand_line(self.text_variables@, done[i]),
                    ),
            decreases s@.len() - pos,
        {
            proof {
                lemma_find_char_bounds(s@, pos as int, '\n');
            }
            let (end, next) = match find_char_exec(&s, pos, '\n') {
                Some(i) => (i, i + 1),
                None => (s.len(), s.len()),
            };
            let mut line = slice_chars(&s, pos, end);
            if line.len() > 0 && line[line.len() - 1] == '\r' {
                line.pop();
                assert(line@ == s@.subrange(pos as int, end as int).drop_last());
            }
            let ghost l = line@;
            let expanded = self.replace_template_variables(string_of(line.as_slice()).as_str());
            let m = Self::classify_line(&chars_of(expanded.as_str()));
            out.push(m);
            proof {
                assert(lines_from(s@, pos as int) == seq![l] + lines_from(s@, next as int));
                done = done.push(l);
                assert(done + lines_from(s@, next as int) =~= lines_from(s@, 0));
            }
            pos = next;
        }
        assert(lines_from(s@, pos as int) == Seq::<Seq<char>>::empty());
        assert(done =~= lines_from(s@, 0));
        out
    }

    /// Records the messages of a template file read from `path`.
    pub fn load_template_file(&mut self, path: &str, messages: Vec<MessageValue>)
        requires
            old(self).wf(),
        ensures
            final(self).wf(),
            final(self).template_files@ == old(self).template_files@.insert(
                VarKey::User(path@),
                messages,
            ),
            final(self).text_variables@ == old(self).text_variables@,
            final(self).embedding_variables@ == old(self).embedding_variables@,
            final(self).prompts@ == old(self).prompts@,
            final(self).templates@ == old(self).templates@,
    {
        self.template_files.insert(VariableId::User(path.to_string()), messages);
    }

    /// Stores the text `value` under `id`.
    pub fn set_text(&mut self, id: VariableId, value: String)
        requires
            old(self).wf(),
        ensures
            final(self).wf(),
            text_set(*old(self), *final(self), id@, value@),
    {
        self.text_variables.insert(id, value);
    }

    /// Stores a template under `id`.
    pub fn set_template(&mut self, id: VariableId, messages: Vec<MessageValue>)
        requires
            old(self).wf(),
        ensures
            final(self).wf(),
            final(self).templates@ == old(self).templates@.insert(id@, messages),
            final(self).text_variables@ == old(self).text_variables@,
            final(self).embedding_variables@ == old(self).embedding_variables@,
            final(self).prompts@ == old(self).prompts@,
            final(self).template_files@ == old(self).template_files@,
    {
        self.templates.insert(id, messages);
    }

    /// Stores an embedding, as the bit patterns of its floats, under `id`.
    pub fn set_embedding(&mut self, id: VariableId, embedding: Vec<u32>)
        requires
            old(self).wf(),
        ensures
            final(self).wf(),
            final(self).embedding_variables@ == old(self).embedding_variables@.insert(id@, embedding),
            final(self).text_variables@ == old(self).text_variables@,
            final(self).templates@ == old(self).templates@,
            final(self).prompts@ == old(self).prompts@,
            final(self).template_files@ == old(self).template_files@,
    {
        self.embedding_variables.insert(id, embedding);
    }

    /// Stores a prompt under `id`.
    pub fn set_prompt(&mut self, id: VariableId, messages: Vec<BarkMessage>)
        requires
            old(self).wf(),
        ensures
            final(self).wf(),
            prompt_set(*old(self), *final(self), id@, msgs_view(messages@)),
    {
        self.prompts.insert(id, messages);
    }

    /// The stored prompt under `id`, copied, if there is one.
    pub fn prompt(&self, id: &VariableId) -> (r: Option<Vec<BarkMessage>>)
        requires
            self.wf(),
        ensures
            r is Some == self.prompts@.contains_key(id@),
            r matches Some(v) ==> msgs_view(v@) == msgs_view(self.prompts@[id@]@),
    {
        match self.prompts.get(id) {
            Some(v) => Some(copy_messages(v)),
            None => None,
        }
    }

    /// Records a finished chat: `text` becomes the last output, and the prompt
    /// that was sent, followed by the reply as an assistant message, becomes the
    /// last-output prompt.
    pub fn record_completion(&mut self, sent: &Vec<BarkMessage>, text: String)
        requires
            old(self).wf(),
        ensures
            final(self).wf(),
            final(self).text_variables@ == old(self).text_variables@.insert(
                VarKey::LastOutput,
                final(self).text_variables@[VarKey::LastOutput],
            ),
            final(self).text_variables@[VarKey::LastOutput]@ == text@,
            final(self).prompts@ == old(self).prompts@.insert(
                VarKey::LastOutput,
                final(self).prompts@[VarKey::LastOutput],
            ),
            msgs_view(final(self).prompts@[VarKey::LastOutput]@) == msgs_view(sent@).push(
                text_msg(BarkRole::Assistant, text@),
            ),
            final(self).embedding_variables@ == old(self).embedding_variables@,
            final(self).templates@ == old(self).templates@,
            final(self).template_files@ == old(self).template_files@,
    {
        let mut prompt = copy_messages(sent);
        let ghost before = prompt@;
        prompt.push(text_message(BarkRole::Assistant, text.clone()));
        assert(msgs_view(prompt@) =~= msgs_view(before).push(text_msg(BarkRole::Assistant, text@)));
        self.prompts.insert(VariableId::LastOutput, prompt);
        self.text_variables.insert(VariableId::LastOutput, text);
    }

    /// Whether `matcher` holds of the resolution of `text`.
    pub fn text_matches(&self, text: &TextValue, matcher: &TextMatcher) -> (r: bool)
        requires
            self.wf(),
        ensures
            r == matcher_holds(*self, text_of(*self, *text), *matcher),
    {
        let s = chars_of(self.get_text(text).as_str());
        self.matches_resolved(&s, matcher)
    }
}

/// A list of matchers that negates another one by one.
pub open spec fn negates_each(ns: Seq<TextMatcher>, ms: Seq<TextMatcher>) -> bool {
    ns.len() == ms.len() && forall|i: int|
        0 <= i < ms.len() ==> (#[trigger] ns[i] is Not && *ns[i]->Not_0 == ms[i])
}

proof fn lemma_none_is_all_negated(c: BarkController, s: Seq<char>, ms: Seq<TextMatcher>, ns: Seq<TextMatcher>)
    requires
        negates_each(ns, ms),
    ensures
        !any_holds(c, s, ms) == all_holds(c, s, ns),
    decreases ms.len(),
{
    if ms.len() > 0 {
        assert(negates_each(ns.drop_last(), ms.drop_last())) by {
            assert forall|i: int| 0 <= i < ms.len() - 1 implies (#[trigger] ns.drop_last()[i] is Not
                && *ns.drop_last()[i]->Not_0 == ms.drop_last()[i]) by {
                assert(ns[i] is Not);
            }
        }
        lemma_none_is_all_negated(c, s, ms.drop_last(), ns.drop_last());
        assert(ns[ns.len() - 1] is Not);
        assert(matcher_holds(c, s, ns.last()) == !matcher_holds(c, s, ms.last()));
    }
}

/// De Morgan for matchers: "not any of these" holds exactly when "all of the
/// negations" does.
pub proof fn lemma_not_any_is_all_not(
    c: BarkController,
    s: Seq<char>,
    any: Vec<TextMatcher>,
    nots: Vec<TextMatcher>,
)
    requires
        negates_each(nots@, any@),
    ensures
        matcher_holds(c, s, TextMatcher::Not(Box::new(TextMatcher::Any(any)))) == matcher_holds(
            c,
            s,
            TextMatcher::All(nots),
        ),
{
    lemma_none_is_all_negated(c, s, any@, nots@);
    let inner = TextMatcher::Any(any);
    assert(matcher_holds(c, s, inner) == any_holds(c, s, any@));
    assert(matcher_holds(c, s, TextMatcher::Not(Box::new(inner))) == !matcher_holds(c, s, inner));
    assert(matcher_holds(c, s, TextMatcher::All(nots)) == all_holds(c, s, nots@));
}

/// Equality up to ASCII case is an equivalence.
proof fn lemma_eq_ignore_case_equiv(a: Seq<char>, b: Seq<char>, x: Seq<char>)
    ensures
        eq_ignore_case(a, a),
        eq_ignore_case(a, b) ==> eq_ignore_case(b, a),
        eq_ignore_case(a, b) && eq_ignore_case(b, x) ==> eq_ignore_case(a, x),
{
    if eq_ignore_case(a, b) && eq_ignore_case(b, x) {
        assert forall|i: int| 0 <= i < a.len() implies eq_ignore_case_char(a[i], x[i]) by {
            assert(eq_ignore_case_char(a[i], b[i]));
            assert(eq_ignore_case_char(b[i], x[i]));
        }
    }
}

/// An exact matcher ignores leading and trailing white space and ASCII letter
/// case: two texts that agree once trimmed, up to case, are matched alike.
pub proof fn lemma_exact_ignores_space_and_case(
    c: BarkController,
    s1: Seq<char>,
    s2: Seq<char>,
    v: TextValue,
)
    requires
        eq_ignore_case(trim(s1), trim(s2)),
    ensures
        matcher_holds(c, s1, TextMatcher::Exact(v)) == matcher_holds(c, s2, TextMatcher::Exact(v)),
{
    let t = trim(text_of(c, v));
    lemma_eq_ignore_case_equiv(trim(s1), trim(s2), t);
    lemma_eq_ignore_case_equiv(trim(s2), trim(s1), t);
}

/// The keys strictly increase, so each occurs once.
pub open spec fn keys_sorted(s: Seq<(Seq<char>, Seq<char>)>) -> bool {
    forall|i: int, j: int| 0 <= i < j < s.len() ==> chars_lt(#[trigger] s[i].0, #[trigger] s[j].0)
}

/// Whether `x` is a key of `s`.
pub open spec fn has_key(s: Seq<(Seq<char>, Seq<char>)>, x: Seq<char>) -> bool {
    exists|j: int| 0 <= j < s.len() && #[trigger] s[j].0 == x
}

proof fn lemma_put_keys(s: Seq<(Seq<char>, Seq<char>)>, k: Seq<char>, v: Seq<char>)
    ensures
        forall|i: int|
            0 <= i < put(s, k, v).len() ==> #[trigger] put(s, k, v)[i].0 == k || has_key(
                s,
                put(s, k, v)[i].0,
            ),
    decreases s.len(),
{
    let p = put(s, k, v);
    if s.len() > 0 {
        let t = s.drop_first();
        lemma_put_keys(t, k, v);
        assert forall|i: int| 0 <= i < p.len() implies #[trigger] p[i].0 == k || has_key(s, p[i].0) by {
            if s[0].0 == k {
                if i > 0 {
                    assert(p[i] == s[i]);
                }
            } else if chars_lt(k, s[0].0) {
                if i > 0 {
                    assert(p[i] == s[i - 1]);
                }
            } else {
                if i == 0 {
                    assert(p[0] == s[0]);
                } else {
                    assert(p[i] == put(t, k, v)[i - 1]);
                    if has_key(t, p[i].0) {
                        let m = choose|m: int| 0 <= m < t.len() && #[trigger] t[m].0 == p[i].0;
                        assert(s[m + 1] == t[m]);
                    }
                }
            }
        }
    }
}

proof fn lemma_put_sorted(s: Seq<(Seq<char>, Seq<char>)>, k: Seq<char>, v: Seq<char>)
    requires
        keys_sorted(s),
    ensures
        keys_sorted(put(s, k, v)),
    decreases s.len(),
{
    let p = put(s, k, v);
    if s.len() == 0 {
        return;
    }
    let t = s.drop_first();
    if s[0].0 == k {
        assert forall|i: int, j: int| 0 <= i < j < p.len() implies chars_lt(#[trigger] p[i].0, #[trigger] p[j].0) by {
            assert(p[j] == s[j]);
            if i > 0 {
                assert(p[i] == s[i]);
            }
        }
    } else if chars_lt(k, s[0].0) {
        assert forall|i: int, j: int| 0 <= i < j < p.len() implies chars_lt(#[trigger] p[i].0, #[trigger] p[j].0) by {
            assert(p[j] == s[j - 1]);
            if i > 0 {
                assert(p[i] == s[i - 1]);
            } else if j > 1 {
                assert(chars_lt(s[0].0, s[j - 1].0));
                lemma_chars_lt_order(k, s[0].0, s[j - 1].0);
            }
        }
    } else {
        assert(keys_sorted(t)) by {
            assert forall|i: int, j: int| 0 <= i < j < t.len() implies chars_lt(#[trigger] t[i].0, #[trigger] t[j].0) by {
                assert(t[i] == s[i + 1] && t[j] == s[j + 1]);
            }
        }
        lemma_put_sorted(t, k, v);
        lemma_put_keys(t, k, v);
        lemma_chars_lt_total(s[0].0, k);
        let q = put(t, k, v);
        assert forall|i: int, j: int| 0 <= i < j < p.len() implies chars_lt(#[trigger] p[i].0, #[trigger] p[j].0) by {
            assert(p[j] == q[j - 1]);
            if i > 0 {
                assert(p[i] == q[i - 1]);
            } else {
                assert(p[0] == s[0]);
                if q[j - 1].0 != k {
                    assert(has_key(t, q[j - 1].0));
                    let m = choose|m: int| 0 <= m < t.len() && #[trigger] t[m].0 == q[j - 1].0;
                    assert(s[m + 1] == t[m]);
                    assert(chars_lt(s[0].0, s[m + 1].0));
                }
            }
        }
    }
}

/// The members of a structured text come out sorted by key, each key once.
pub proof fn lemma_canonical_sorted(es: Seq<(Seq<char>, Seq<char>)>)
    ensures
        keys_sorted(canonical(es)),
    decreases es.len(),
{
    if es.len() > 0 {
        lemma_canonical_sorted(es.drop_last());
        lemma_put_sorted(canonical(es.drop_last()), es.last().0, es.last().1);
    }
}

} // verus!
