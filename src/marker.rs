use vstd::prelude::*;

verus! {

/// The characters that open a marker: `<function=`.
pub open spec fn marker_open() -> Seq<char> {
    seq!['<', 'f', 'u', 'n', 'c', 't', 'i', 'o', 'n', '=']
}

/// A character allowed in a function name: `[A-Za-z0-9_]`.
pub open spec fn is_name_char(c: char) -> bool {
    ('a' <= c && c <= 'z') || ('A' <= c && c <= 'Z') || ('0' <= c && c <= '9') || c == '_'
}

/// The end of the run of name characters that starts at `j`.
pub open spec fn name_end(t: Seq<char>, j: int) -> int
    decreases t.len() - j,
{
    if 0 <= j < t.len() && is_name_char(t[j]) {
        name_end(t, j + 1)
    } else {
        j
    }
}

/// The first `}` at or after `j` (the length of `t` when there is none).
pub open spec fn close_brace(t: Seq<char>, j: int) -> int
    decreases t.len() - j,
{
    if 0 <= j < t.len() && t[j] != '}' {
        close_brace(t, j + 1)
    } else {
        j
    }
}

/// Whether a marker starts at `i`; if so, the position `k` of its `{` and the
/// position `m` of its `}`.
pub open spec fn marker_at(t: Seq<char>, i: int) -> Option<(int, int)> {
    let k = name_end(t, i + 10);
    let m = close_brace(t, k + 1);
    if 0 <= i && i + 10 <= t.len() && t.subrange(i, i + 10) == marker_open() && k > i + 10
        && k < t.len() && t[k] == '{' && m + 1 < t.len() && t[m + 1] == '>' {
        Some((k, m))
    } else {
        None
    }
}

/// The leftmost marker at or after `i`, as (start, brace, close).
pub open spec fn first_marker_from(t: Seq<char>, i: int) -> Option<(int, int, int)>
    decreases t.len() - i,
{
    if i < 0 || i >= t.len() {
        None
    } else {
        match marker_at(t, i) {
            Some((k, m)) => Some((i, k, m)),
            None => first_marker_from(t, i + 1),
        }
    }
}

/// The function name and the parameter text (braces included) of the leftmost
/// marker in `t`, if any.
pub open spec fn marker_of(t: Seq<char>) -> Option<(Seq<char>, Seq<char>)> {
    match first_marker_from(t, 0) {
        Some((i, k, m)) => Some((t.subrange(i + 10, k), t.subrange(k, m + 1))),
        None => None,
    }
}

/// The text of a marker for `name` with parameter text `params`.
pub open spec fn marker_text(name: Seq<char>, params: Seq<char>) -> Seq<char> {
    marker_open() + name + params + seq!['>']
}

/// A function name that the grammar accepts.
pub open spec fn valid_name(name: Seq<char>) -> bool {
    name.len() > 0 && forall|x: int| 0 <= x < name.len() ==> is_name_char(#[trigger] name[x])
}

/// Parameter text that the grammar accepts: `{`, then anything but `}`, then `}`.
pub open spec fn valid_params(p: Seq<char>) -> bool {
    &&& p.len() >= 2
    &&& p[0] == '{'
    &&& p[p.len() - 1] == '}'
    &&& forall|x: int| 0 <= x < p.len() - 1 ==> #[trigger] p[x] != '}'
}

proof fn lemma_name_end_is(t: Seq<char>, j: int, e: int)
    requires
        0 <= j <= e <= t.len(),
        forall|x: int| j <= x < e ==> is_name_char(#[trigger] t[x]),
        e < t.len() ==> !is_name_char(t[e]),
    ensures
        name_end(t, j) == e,
    decreases e - j,
{
    if j < e {
        lemma_name_end_is(t, j + 1, e);
    }
}

proof fn lemma_close_brace_is(t: Seq<char>, j: int, e: int)
    requires
        0 <= j <= e < t.len(),
        forall|x: int| j <= x < e ==> #[trigger] t[x] != '}',
        t[e] == '}',
    ensures
        close_brace(t, j) == e,
    decreases e - j,
{
    if j < e {
        lemma_close_brace_is(t, j + 1, e);
    }
}

proof fn lemma_name_end_facts(t: Seq<char>, j: int)
    requires
        0 <= j <= t.len(),
    ensures
        j <= name_end(t, j) <= t.len(),
        forall|x: int| j <= x < name_end(t, j) ==> is_name_char(#[trigger] t[x]),
    decreases t.len() - j,
{
    if j < t.len() && is_name_char(t[j]) {
        lemma_name_end_facts(t, j + 1);
    }
}

proof fn lemma_close_brace_facts(t: Seq<char>, j: int)
    requires
        0 <= j <= t.len(),
    ensures
        j <= close_brace(t, j) <= t.len(),
        forall|x: int| j <= x < close_brace(t, j) ==> #[trigger] t[x] != '}',
        close_brace(t, j) < t.len() ==> t[close_brace(t, j)] == '}',
    decreases t.len() - j,
{
    if j < t.len() && t[j] != '}' {
        lemma_close_brace_facts(t, j + 1);
    }
}

proof fn lemma_first_marker_found(t: Seq<char>, i: int)
    requires
        0 <= i,
        first_marker_from(t, i) is Some,
    ensures
        ({
            let (s, k, m) = first_marker_from(t, i)->0;
            marker_at(t, s) == Some((k, m))
        }),
    decreases t.len() - i,
{
    if i < t.len() && marker_at(t, i) is None {
        lemma_first_marker_found(t, i + 1);
    }
}

/// Writing a marker for a valid name and valid parameter text and scanning it
/// again yields exactly that name and that parameter text.
pub proof fn law_marker_round_trip(name: Seq<char>, params: Seq<char>)
    requires
        valid_name(name),
        valid_params(params),
    ensures
        marker_of(marker_text(name, params)) == Some((name, params)),
{
    let t = marker_text(name, params);
    let k: int = 10 + name.len() as int;
    let m: int = k + params.len() - 1;
    assert(t.subrange(0, 10) =~= marker_open());
    assert forall|x: int| 10 <= x < k implies is_name_char(#[trigger] t[x]) by {
        assert(t[x] == name[x - 10]);
    }
    assert(t[k] == '{');
    lemma_name_end_is(t, 10, k);
    assert forall|x: int| k + 1 <= x < m implies #[trigger] t[x] != '}' by {
        assert(t[x] == params[x - k]);
    }
    assert(t[m] == params[params.len() - 1]);
    lemma_close_brace_is(t, k + 1, m);
    assert(t[m + 1] == '>');
    assert(marker_at(t, 0) == Some((k, m)));
    assert(t.subrange(10, k) =~= name);
    assert(t.subrange(k, m + 1) =~= params);
}

/// What the scanner extracts is a valid name and valid parameter text, and
/// writing them back into a marker and scanning again yields the same pair.
pub proof fn law_marker_reserialize(text: Seq<char>)
    requires
        marker_of(text) is Some,
    ensures
        ({
            let (name, params) = marker_of(text)->0;
            &&& valid_name(name)
            &&& valid_params(params)
            &&& marker_of(marker_text(name, params)) == Some((name, params))
        }),
{
    lemma_first_marker_found(text, 0);
    let (i, k, m) = first_marker_from(text, 0)->0;
    let (name, params) = marker_of(text)->0;
    lemma_name_end_facts(text, i + 10);
    lemma_close_brace_facts(text, k + 1);
    assert forall|x: int| 0 <= x < name.len() implies is_name_char(#[trigger] name[x]) by {
        assert(name[x] == text[i + 10 + x]);
    }
    assert forall|x: int| 0 <= x < params.len() - 1 implies #[trigger] params[x] != '}' by {
        assert(params[x] == text[k + x]);
    }
    law_marker_round_trip(name, params);
}

/// A function-call intent found in model text.
pub struct Marker {
    pub name: String,
    pub params: String,
}

fn name_char(c: char) -> (r: bool)
    ensures
        r == is_name_char(c),
{
    ('a' <= c && c <= 'z') || ('A' <= c && c <= 'Z') || ('0' <= c && c <= '9') || c == '_'
}

fn to_chars(text: &str) -> (r: Vec<char>)
    ensures
        r@ == text@,
{
    broadcast use vstd::string::group_string_axioms;
    let mut r: Vec<char> = Vec::new();
    for c in it: text.chars()
        invariant
            r@ == it.seq().take(it.index() as int),
            it.seq() == text@,
    {
        r.push(c);
    }
    assert(r@ =~= text@);
    r
}

fn name_end_exec(t: &Vec<char>, j: usize) -> (r: usize)
    requires
        j <= t.len(),
    ensures
        r as int == name_end(t@, j as int),
        j <= r <= t.len(),
    decreases t.len() - j,
{
    if j < t.len() && name_char(t[j]) {
        name_end_exec(t, j + 1)
    } else {
        j
    }
}

fn close_brace_exec(t: &Vec<char>, j: usize) -> (r: usize)
    requires
        j <= t.len(),
    ensures
        r as int == close_brace(t@, j as int),
        j <= r <= t.len(),
    decreases t.len() - j,
{
    if j < t.len() && t[j] != '}' {
        close_brace_exec(t, j + 1)
    } else {
        j
    }
}

fn opens_marker_at(t: &Vec<char>, i: usize) -> (r: bool)
    requires
        i + 10 <= t.len(),
    ensures
        r == (t@.subrange(i as int, i + 10) == marker_open()),
{
    let open = ['<', 'f', 'u', 'n', 'c', 't', 'i', 'o', 'n', '='];
    let mut x: usize = 0;
    while x < 10
        invariant
            x <= 10,
            i + 10 <= t.len(),
            open@ == marker_open(),
            forall|y: int| 0 <= y < x ==> t@[i + y] == marker_open()[y],
        decreases 10 - x,
    {
        if t[i + x] != open[x] {
            assert(t@.subrange(i as int, i + 10)[x as int] != marker_open()[x as int]);
            return false;
        }
        x = x + 1;
    }
    assert(t@.subrange(i as int, i + 10) =~= marker_open());
    true
}

fn marker_at_exec(t: &Vec<char>, i: usize) -> (r: Option<(usize, usize)>)
    requires
        i < t.len(),
    ensures
        match r {
            Some((k, m)) => marker_at(t@, i as int) == Some((k as int, m as int)) && i + 10 < k < m
                && m + 1 < t.len(),
            None => marker_at(t@, i as int) is None,
        },
{
    if t.len() - i < 10 || !opens_marker_at(t, i) {
        return None;
    }
    let k = name_end_exec(t, i + 10);
    if k == i + 10 || k >= t.len() || t[k] != '{' {
        return None;
    }
    let m = close_brace_exec(t, k + 1);
    if m >= t.len() - 1 || t[m + 1] != '>' {
        return None;
    }
    Some((k, m))
}

/// Finds the leftmost marker `<function=NAME{PARAMS}>` in `text`: NAME is a
/// non-empty run of `[A-Za-z0-9_]`, PARAMS runs from the `{` to the first `}`
/// after it, and `>` must follow that `}`.
pub fn find_marker(text: &str) -> (r: Option<Marker>)
    ensures
        match r {
            Some(mk) => marker_of(text@) == Some((mk.name@, mk.params@)),
            None => marker_of(text@) is None,
        },
{
    let t = to_chars(text);
    let mut i: usize = 0;
    while i < t.len()
        invariant
            i <= t.len(),
            t@ == text@,
            first_marker_from(t@, 0) == first_marker_from(t@, i as int),
        decreases t.len() - i,
    {
        match marker_at_exec(&t, i) {
            Some((k, m)) => {
                let name = text.substring_char(i + 10, k).to_string();
                let params = text.substring_char(k, m + 1).to_string();
                proof {
                    broadcast use vstd::string::group_string_axioms;
                }
                return Some(Marker { name, params });
            },
            None => {
                i = i + 1;
            },
        }
    }
    None
}

} // verus!
