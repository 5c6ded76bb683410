use vstd::prelude::*;

verus! {

/// Collects the characters of `s` in order.
pub fn chars_of(s: &str) -> (r: Vec<char>)
    ensures
        r@ == s@,
{
    let mut r: Vec<char> = Vec::new();
    for c in it: s.chars()
        invariant
            r@ == it.seq().subrange(0, it.index() as int),
    {
        r.push(c);
    }
    r
}

/// Relies on `String::push`: appends one character.
#[verifier::external_body]
fn push_char(s: &mut String, c: char)
    ensures
        final(s)@ == old(s)@.push(c),
{
    s.push(c);
}

/// Builds a string holding the characters of `cs` in order.
pub fn string_of(cs: &[char]) -> (r: String)
    ensures
        r@ == cs@,
{
    let mut r = String::new();
    let mut i: usize = 0;
    while i < cs.len()
        invariant
            i <= cs@.len(),
            r@ == cs@.subrange(0, i as int),
        decreases cs@.len() - i,
    {
        push_char(&mut r, cs[i]);
        i += 1;
    }
    r
}

/// Appends the characters of `s` to `out`.
pub fn append_chars(out: &mut Vec<char>, s: &[char])
    ensures
        final(out)@ == old(out)@ + s@,
{
    let mut i: usize = 0;
    while i < s.len()
        invariant
            i <= s@.len(),
            out@ == old(out)@ + s@.subrange(0, i as int),
        decreases s@.len() - i,
    {
        out.push(s[i]);
        i += 1;
        assert(s@.subrange(0, i as int) == s@.subrange(0, i - 1) + seq![s@[i - 1]]);
    }
    assert(s@.subrange(0, s@.len() as int) == s@);
}

/// The characters of `s` from `from` up to `to`.
pub fn slice_chars(s: &Vec<char>, from: usize, to: usize) -> (r: Vec<char>)
    requires
        from <= to <= s@.len(),
    ensures
        r@ == s@.subrange(from as int, to as int),
{
    let mut r: Vec<char> = Vec::new();
    let mut i: usize = from;
    while i < to
        invariant
            from <= i <= to <= s@.len(),
            r@ == s@.subrange(from as int, i as int),
        decreases to - i,
    {
        r.push(s[i]);
        i += 1;
    }
    r
}

/// Whether two character sequences are equal.
pub fn eq_chars(a: &[char], b: &[char]) -> (r: bool)
    ensures
        r == (a@ == b@),
{
    if a.len() != b.len() {
        return false;
    }
    let mut i: usize = 0;
    while i < a.len()
        invariant
            a@.len() == b@.len(),
            i <= a@.len(),
            forall|j: int| 0 <= j < i ==> a@[j] == b@[j],
        decreases a@.len() - i,
    {
        if a[i] != b[i] {
            return false;
        }
        i += 1;
    }
    assert(a@ =~= b@);
    true
}

/// The first position at or after `from` where `c` occurs twice in a row.
pub open spec fn find_pair(s: Seq<char>, from: int, c: char) -> Option<int>
    decreases s.len() - from,
{
    if from < 0 || from + 1 >= s.len() {
        None
    } else if s[from] == c && s[from + 1] == c {
        Some(from)
    } else {
        find_pair(s, from + 1, c)
    }
}

/// The first position at or after `from` where `c` occurs.
pub open spec fn find_char(s: Seq<char>, from: int, c: char) -> Option<int>
    decreases s.len() - from,
{
    if from < 0 || from >= s.len() {
        None
    } else if s[from] == c {
        Some(from)
    } else {
        find_char(s, from + 1, c)
    }
}

/// A pair found lies at or after `from`, inside `s`.
pub proof fn lemma_find_pair_bounds(s: Seq<char>, from: int, c: char)
    ensures
        find_pair(s, from, c) is Some ==> {
            let i = find_pair(s, from, c)->0;
            0 <= from <= i && i + 1 < s.len() && s[i] == c && s[i + 1] == c
        },
    decreases s.len() - from,
{
    if !(from < 0 || from + 1 >= s.len()) && !(s[from] == c && s[from + 1] == c) {
        lemma_find_pair_bounds(s, from + 1, c);
    }
}

/// A character found lies at or after `from`, inside `s`.
pub proof fn lemma_find_char_bounds(s: Seq<char>, from: int, c: char)
    ensures
        find_char(s, from, c) is Some ==> {
            let i = find_char(s, from, c)->0;
            0 <= from <= i < s.len() && s[i] == c
        },
    decreases s.len() - from,
{
    if !(from < 0 || from >= s.len()) && s[from] != c {
        lemma_find_char_bounds(s, from + 1, c);
    }
}

/// Executable `find_pair`.
pub fn find_pair_exec(s: &Vec<char>, from: usize, c: char) -> (r: Option<usize>)
    ensures
        r matches Some(i) ==> find_pair(s@, from as int, c) == Some(i as int),
        r is None ==> find_pair(s@, from as int, c) is None,
{
    let mut i: usize = from;
    while i < s.len() && i + 1 < s.len()
        invariant
            from <= i,
            find_pair(s@, from as int, c) == find_pair(s@, i as int, c),
        decreases s@.len() - i,
    {
        if s[i] == c && s[i + 1] == c {
            return Some(i);
        }
        i += 1;
    }
    None
}

/// Executable `find_char`.
pub fn find_char_exec(s: &Vec<char>, from: usize, c: char) -> (r: Option<usize>)
    ensures
        r matches Some(i) ==> find_char(s@, from as int, c) == Some(i as int),
        r is None ==> find_char(s@, from as int, c) is None,
{
    let mut i: usize = from;
    while i < s.len()
        invariant
            from <= i,
            find_char(s@, from as int, c) == find_char(s@, i as int, c),
        decreases s@.len() - i,
    {
        if s[i] == c {
            return Some(i);
        }
        i += 1;
    }
    None
}

/// Unicode White_Space, the set that `str::trim` removes.
pub open spec fn is_space(c: char) -> bool {
    let u = c as u32;
    (0x9 <= u <= 0xd) || u == 0x20 || u == 0x85 || u == 0xa0 || u == 0x1680 || (0x2000 <= u
        <= 0x200a) || u == 0x2028 || u == 0x2029 || u == 0x202f || u == 0x205f || u == 0x3000
}

/// Executable `is_space`.
pub fn is_space_exec(c: char) -> (r: bool)
    ensures
        r == is_space(c),
{
    let u = c as u32;
    (0x9 <= u && u <= 0xd) || u == 0x20 || u == 0x85 || u == 0xa0 || u == 0x1680 || (0x2000 <= u
        && u <= 0x200a) || u == 0x2028 || u == 0x2029 || u == 0x202f || u == 0x205f || u == 0x3000
}

/// `s` without its leading white space.
pub open spec fn trim_start(s: Seq<char>) -> Seq<char>
    decreases s.len(),
{
    if s.len() > 0 && is_space(s[0]) {
        trim_start(s.drop_first())
    } else {
        s
    }
}

/// `s` without its trailing white space.
pub open spec fn trim_end(s: Seq<char>) -> Seq<char>
    decreases s.len(),
{
    if s.len() > 0 && is_space(s.last()) {
        trim_end(s.drop_last())
    } else {
        s
    }
}

/// `s` without leading and trailing white space.
pub open spec fn trim(s: Seq<char>) -> Seq<char> {
    trim_end(trim_start(s))
}

/// Removes leading and trailing white space.
pub fn trim_exec(s: &Vec<char>) -> (r: Vec<char>)
    ensures
        r@ == trim(s@),
{
    let mut i: usize = 0;
    assert(s@.subrange(0, s@.len() as int) == s@);
    while i < s.len() && is_space_exec(s[i])
        invariant
            i <= s@.len(),
            trim_start(s@) == trim_start(s@.subrange(i as int, s@.len() as int)),
        decreases s@.len() - i,
    {
        assert(s@.subrange(i as int, s@.len() as int).drop_first() =~= s@.subrange(
            i + 1,
            s@.len() as int,
        ));
        i += 1;
    }
    let ghost lead = s@.subrange(i as int, s@.len() as int);
    assert(trim_start(lead) == lead);
    let mut j: usize = s.len();
    while j > i && is_space_exec(s[j - 1])
        invariant
            i <= j <= s@.len(),
            lead == s@.subrange(i as int, s@.len() as int),
            trim_end(lead) == trim_end(s@.subrange(i as int, j as int)),
        decreases j,
    {
        assert(s@.subrange(i as int, j as int).drop_last() =~= s@.subrange(i as int, j - 1));
        j -= 1;
    }
    slice_chars(s, i, j)
}

/// Removes leading white space.
pub fn trim_start_exec(s: &Vec<char>) -> (r: Vec<char>)
    ensures
        r@ == trim_start(s@),
{
    let mut i: usize = 0;
    assert(s@.subrange(0, s@.len() as int) == s@);
    while i < s.len() && is_space_exec(s[i])
        invariant
            i <= s@.len(),
            trim_start(s@) == trim_start(s@.subrange(i as int, s@.len() as int)),
        decreases s@.len() - i,
    {
        assert(s@.subrange(i as int, s@.len() as int).drop_first() =~= s@.subrange(
            i + 1,
            s@.len() as int,
        ));
        i += 1;
    }
    slice_chars(s, i, s.len())
}

/// Whether two characters are equal up to ASCII letter case.
pub open spec fn eq_ignore_case_char(a: char, b: char) -> bool {
    let x = a as u32;
    let y = b as u32;
    x == y || (65 <= x <= 90 && x + 32 == y) || (65 <= y <= 90 && y + 32 == x)
}

/// Whether two character sequences are equal up to ASCII letter case.
pub open spec fn eq_ignore_case(a: Seq<char>, b: Seq<char>) -> bool {
    a.len() == b.len() && forall|i: int| 0 <= i < a.len() ==> eq_ignore_case_char(a[i], b[i])
}

/// Executable `eq_ignore_case`.
pub fn eq_ignore_case_exec(a: &Vec<char>, b: &Vec<char>) -> (r: bool)
    ensures
        r == eq_ignore_case(a@, b@),
{
    if a.len() != b.len() {
        return false;
    }
    let mut i: usize = 0;
    while i < a.len()
        invariant
            a@.len() == b@.len(),
            i <= a@.len(),
            forall|j: int| 0 <= j < i ==> eq_ignore_case_char(a@[j], b@[j]),
        decreases a@.len() - i,
    {
        let x = a[i] as u32;
        let y = b[i] as u32;
        let same = x == y || (65 <= x && x <= 90 && x + 32 == y) || (65 <= y && y <= 90 && y + 32
            == x);
        if !same {
            return false;
        }
        i += 1;
    }
    true
}

/// Whether `p` occurs in `s` at position `i`.
pub open spec fn occurs_at(s: Seq<char>, p: Seq<char>, i: int) -> bool {
    0 <= i && i + p.len() <= s.len() && s.subrange(i, i + p.len()) == p
}

/// Whether `p` occurs somewhere in `s`.
pub open spec fn contains_seq(s: Seq<char>, p: Seq<char>) -> bool {
    exists|i: int| occurs_at(s, p, i)
}

/// The first position at or after `from` where `p` occurs in `s`.
pub open spec fn find_seq(s: Seq<char>, p: Seq<char>, from: int) -> Option<int>
    decreases s.len() + 1 - from,
{
    if from < 0 || from + p.len() > s.len() {
        None
    } else if s.subrange(from, from + p.len()) == p {
        Some(from)
    } else {
        find_seq(s, p, from + 1)
    }
}

/// What `find_seq` finds occurs there, at or after `from`; when it finds
/// nothing, `p` occurs nowhere from `from` on.
pub proof fn lemma_find_seq(s: Seq<char>, p: Seq<char>, from: int)
    requires
        0 <= from,
    ensures
        find_seq(s, p, from) is Some ==> {
            let i = find_seq(s, p, from)->0;
            from <= i && occurs_at(s, p, i)
        },
        find_seq(s, p, from) is None ==> forall|i: int| from <= i ==> !occurs_at(s, p, i),
    decreases s.len() + 1 - from,
{
    if !(from + p.len() > s.len()) && s.subrange(from, from + p.len()) != p {
        lemma_find_seq(s, p, from + 1);
        assert forall|i: int| from <= i && find_seq(s, p, from) is None implies !occurs_at(
            s,
            p,
            i,
        ) by {
            if i == from {
            }
        }
    }
}

fn occurs_at_exec(s: &Vec<char>, p: &Vec<char>, i: usize) -> (r: bool)
    requires
        i + p@.len() <= s@.len(),
    ensures
        r == (s@.subrange(i as int, i + p@.len()) == p@),
{
    let mut k: usize = 0;
    let n = s.len();
    while k < p.len()
        invariant
            i + p@.len() <= s@.len() == n,
            k <= p@.len(),
            forall|j: int| 0 <= j < k ==> s@[i + j] == p@[j],
        decreases p@.len() - k,
    {
        if s[i + k] != p[k] {
            assert(s@.subrange(i as int, i + p@.len())[k as int] != p@[k as int]);
            return false;
        }
        k += 1;
    }
    assert(s@.subrange(i as int, i + p@.len()) =~= p@);
    true
}

/// Executable `find_seq`.
pub fn find_seq_exec(s: &Vec<char>, p: &Vec<char>, from: usize) -> (r: Option<usize>)
    ensures
        r matches Some(i) ==> find_seq(s@, p@, from as int) == Some(i as int) && i + p@.len()
            <= s@.len(),
        r is None ==> find_seq(s@, p@, from as int) is None,
{
    let mut i: usize = from;
    loop
        invariant
            from <= i,
            find_seq(s@, p@, from as int) == find_seq(s@, p@, i as int),
        decreases s@.len() + 1 - i,
    {
        if i > s.len() || p.len() > s.len() - i {
            return None;
        }
        if occurs_at_exec(s, p, i) {
            return Some(i);
        }
        if i == s.len() {
            assert(s@.subrange(i as int, i as int) =~= p@);
            return None;
        }
        i += 1;
    }
}

/// Whether `p` occurs in `s`.
pub fn contains_exec(s: &Vec<char>, p: &Vec<char>) -> (r: bool)
    ensures
        r == contains_seq(s@, p@),
{
    proof {
        lemma_find_seq(s@, p@, 0);
    }
    find_seq_exec(s, p, 0).is_some()
}

/// Whether `s` starts with `p`.
pub fn starts_with_exec(s: &Vec<char>, p: &Vec<char>) -> (r: bool)
    ensures
        r == p@.is_prefix_of(s@),
{
    if p.len() > s.len() {
        return false;
    }
    occurs_at_exec(s, p, 0)
}

/// Whether `s` ends with `p`.
pub fn ends_with_exec(s: &Vec<char>, p: &Vec<char>) -> (r: bool)
    ensures
        r == p@.is_suffix_of(s@),
{
    if p.len() > s.len() {
        return false;
    }
    occurs_at_exec(s, p, s.len() - p.len())
}

/// The text of `s` with its first `<think>...</think>` span removed and the rest
/// trimmed; `s` itself when it holds no such span.
pub open spec fn without_thoughts(s: Seq<char>) -> Seq<char> {
    match find_seq(s, "<think>"@, 0) {
        None => s,
        Some(a) => match find_seq(s, "</think>"@, a + "<think>"@.len()) {
            None => s,
            Some(b) => trim(s.subrange(0, a) + s.subrange(b + "</think>"@.len(), s.len() as int)),
        },
    }
}

/// The text between the first `<think>` and the first `</think>` after it; empty
/// when there is no such span.
pub open spec fn thoughts(s: Seq<char>) -> Seq<char> {
    match find_seq(s, "<think>"@, 0) {
        None => Seq::empty(),
        Some(a) => match find_seq(s, "</think>"@, a + "<think>"@.len()) {
            None => Seq::empty(),
            Some(b) => s.subrange(a + "<think>"@.len(), b),
        },
    }
}

/// Finds the first thought span: where `<think>` starts and ends, and where
/// `</think>` starts and ends.
fn think_span(s: &Vec<char>) -> (r: Option<(usize, usize, usize, usize)>)
    ensures
        r is None ==> without_thoughts(s@) == s@ && thoughts(s@) == Seq::<char>::empty(),
        r matches Some((a, b, c, d)) ==> {
            &&& a <= b <= c <= d <= s@.len()
            &&& without_thoughts(s@) == trim(s@.subrange(0, a as int) + s@.subrange(d as int, s@.len() as int))
            &&& thoughts(s@) == s@.subrange(b as int, c as int)
        },
{
    let open = chars_of("<think>");
    let close = chars_of("</think>");
    let n = s.len();
    proof {
        lemma_find_seq(s@, open@, 0);
    }
    match find_seq_exec(s, &open, 0) {
        None => None,
        Some(a) => {
            let b = a + open.len();
            proof {
                lemma_find_seq(s@, close@, b as int);
            }
            match find_seq_exec(s, &close, b) {
                None => None,
                Some(c) => Some((a, b, c, c + close.len())),
            }
        },
    }
}

/// Removes the first `<think>...</think>` span and trims what is left; text
/// without such a span is returned unchanged.
pub fn strip_thoughts(text: &String) -> (r: String)
    ensures
        r@ == without_thoughts(text@),
{
    let s = chars_of(text.as_str());
    match think_span(&s) {
        None => text.clone(),
        Some((a, _b, _c, d)) => {
            let mut joined = slice_chars(&s, 0, a);
            let rest = slice_chars(&s, d, s.len());
            append_chars(&mut joined, rest.as_slice());
            let t = trim_exec(&joined);
            string_of(t.as_slice())
        },
    }
}

/// The text inside the first `<think>...</think>` span, or empty.
pub fn extract_thoughts(text: &String) -> (r: String)
    ensures
        r@ == thoughts(text@),
{
    let s = chars_of(text.as_str());
    match think_span(&s) {
        None => String::new(),
        Some((_a, b, c, _d)) => {
            let t = slice_chars(&s, b, c);
            string_of(t.as_slice())
        },
    }
}

/// Whether `a` comes before `b` in the order of code points, character by
/// character, a proper prefix first.
pub open spec fn chars_lt(a: Seq<char>, b: Seq<char>) -> bool
    decreases a.len(),
{
    if a.len() == 0 {
        b.len() > 0
    } else if b.len() == 0 {
        false
    } else if (a[0] as u32) < (b[0] as u32) {
        true
    } else if (a[0] as u32) > (b[0] as u32) {
        false
    } else {
        chars_lt(a.drop_first(), b.drop_first())
    }
}

/// Executable `chars_lt`.
pub fn chars_lt_exec(a: &Vec<char>, b: &Vec<char>) -> (r: bool)
    ensures
        r == chars_lt(a@, b@),
{
    let mut i: usize = 0;
    assert(a@.subrange(0, a@.len() as int) == a@);
    assert(b@.subrange(0, b@.len() as int) == b@);
    loop
        invariant
            i <= a@.len(),
            i <= b@.len(),
            chars_lt(a@, b@) == chars_lt(
                a@.subrange(i as int, a@.len() as int),
                b@.subrange(i as int, b@.len() as int),
            ),
        decreases a@.len() - i,
    {
        if i == a.len() {
            return i < b.len();
        }
        if i == b.len() {
            return false;
        }
        let x = a[i] as u32;
        let y = b[i] as u32;
        let ghost sa = a@.subrange(i as int, a@.len() as int);
        let ghost sb = b@.subrange(i as int, b@.len() as int);
        assert(sa[0] == a@[i as int] && sb[0] == b@[i as int]);
        if x < y {
            return true;
        }
        if x > y {
            return false;
        }
        assert(sa.drop_first() =~= a@.subrange(i + 1, a@.len() as int));
        assert(sb.drop_first() =~= b@.subrange(i + 1, b@.len() as int));
        i += 1;
    }
}

/// Characters with the same code are the same character.
proof fn lemma_char_code(x: char, y: char)
    requires
        x as u32 == y as u32,
    ensures
        x == y,
{
}

/// Two different sequences are ordered one way or the other.
pub proof fn lemma_chars_lt_total(a: Seq<char>, b: Seq<char>)
    requires
        a != b,
    ensures
        chars_lt(a, b) || chars_lt(b, a),
    decreases a.len(),
{
    if a.len() == 0 && b.len() == 0 {
        assert(a =~= b);
    }
    if a.len() > 0 && b.len() > 0 && (a[0] as u32) == (b[0] as u32) {
        lemma_char_code(a[0], b[0]);
        if a.drop_first() == b.drop_first() {
            assert(a =~= seq![a[0]] + a.drop_first());
            assert(b =~= seq![b[0]] + b.drop_first());
        }
        lemma_chars_lt_total(a.drop_first(), b.drop_first());
    }
}

/// `chars_lt` is irreflexive, asymmetric and transitive.
pub proof fn lemma_chars_lt_order(a: Seq<char>, b: Seq<char>, c: Seq<char>)
    ensures
        !chars_lt(a, a),
        chars_lt(a, b) ==> !chars_lt(b, a),
        chars_lt(a, b) && chars_lt(b, c) ==> chars_lt(a, c),
    decreases a.len(),
{
    if a.len() > 0 && b.len() > 0 && c.len() > 0 {
        lemma_chars_lt_order(a.drop_first(), b.drop_first(), c.drop_first());
    } else if a.len() > 0 && b.len() > 0 {
        lemma_chars_lt_order(a.drop_first(), b.drop_first(), b.drop_first());
    } else if a.len() > 0 {
        lemma_chars_lt_order(a.drop_first(), a.drop_first(), a.drop_first());
    }
}

} // verus!
