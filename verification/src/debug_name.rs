//! Short debug names derived from fully qualified type names.
use vstd::prelude::*;

verus! {

/// Characters that open a nested group in a type name.
pub open spec fn is_opening(c: char) -> bool {
    c == '<' || c == '(' || c == '['
}

/// Characters that close a nested group in a type name.
pub open spec fn is_closing(c: char) -> bool {
    c == '>' || c == ')' || c == ']'
}

/// Scans `s` from position `i`, with nesting `depth` and the current
/// component start `start`, and returns where the last path component
/// that is not nested inside brackets begins.
///
/// A `::` separator is only recognised at depth zero; the depth never
/// drops below zero when a closing bracket has no opening partner.
pub open spec fn component_start(s: Seq<char>, i: int, depth: nat, start: int) -> int
    decreases s.len() - i,
{
    if i < 0 || i >= s.len() {
        start
    } else if is_opening(s[i]) {
        component_start(s, i + 1, depth + 1, start)
    } else if is_closing(s[i]) {
        component_start(s, i + 1, if depth == 0 { 0 } else { (depth - 1) as nat }, start)
    } else if s[i] == ':' && depth == 0 && i + 1 < s.len() && s[i + 1] == ':' {
        component_start(s, i + 2, depth, i + 2)
    } else {
        component_start(s, i + 1, depth, start)
    }
}

/// The last top-level path component of a type name: everything after the
/// last `::` that is not nested inside `<..>`, `(..)` or `[..]`.
pub open spec fn spec_last_path_component(s: Seq<char>) -> Seq<char> {
    s.subrange(component_start(s, 0, 0, 0), s.len() as int)
}

proof fn lemma_component_start_bounds(s: Seq<char>, i: int, depth: nat, start: int)
    requires
        0 <= start <= s.len(),
        0 <= i,
    ensures
        0 <= component_start(s, i, depth, start) <= s.len(),
    decreases s.len() - i,
{
    if i < 0 || i >= s.len() {
    } else if is_opening(s[i]) {
        lemma_component_start_bounds(s, i + 1, depth + 1, start);
    } else if is_closing(s[i]) {
        lemma_component_start_bounds(s, i + 1, if depth == 0 { 0 } else { (depth - 1) as nat }, start);
    } else if s[i] == ':' && depth == 0 && i + 1 < s.len() && s[i + 1] == ':' {
        lemma_component_start_bounds(s, i + 2, depth, i + 2);
    } else {
        lemma_component_start_bounds(s, i + 1, depth, start);
    }
}

/// Scanning a suffix is scanning the whole name from the suffix onwards.
proof fn lemma_component_start_shift(s: Seq<char>, f: int, k: int, depth: nat, start: int)
    requires
        0 <= f <= s.len(),
        0 <= k,
    ensures
        component_start(s.skip(f), k, depth, start) == component_start(s, f + k, depth, start + f)
            - f,
    decreases s.len() - (f + k),
{
    let t = s.skip(f);
    if k >= t.len() {
    } else {
        assert(t[k] == s[f + k]);
        if k + 1 < t.len() {
            assert(t[k + 1] == s[f + k + 1]);
        }
        if is_opening(t[k]) {
            lemma_component_start_shift(s, f, k + 1, depth + 1, start);
        } else if is_closing(t[k]) {
            lemma_component_start_shift(
                s,
                f,
                k + 1,
                if depth == 0 { 0 } else { (depth - 1) as nat },
                start,
            );
        } else if t[k] == ':' && depth == 0 && k + 1 < t.len() && t[k + 1] == ':' {
            lemma_component_start_shift(s, f, k + 2, depth, k + 2);
        } else {
            lemma_component_start_shift(s, f, k + 1, depth, start);
        }
    }
}

/// Where the scan ends up, either nothing was set after `start`, or a scan
/// resumed there at depth zero sets nothing more.
proof fn lemma_component_start_settles(s: Seq<char>, i: int, depth: nat, start: int)
    requires
        0 <= i,
    ensures
        component_start(s, i, depth, start) == start || component_start(
            s,
            component_start(s, i, depth, start),
            0,
            component_start(s, i, depth, start),
        ) == component_start(s, i, depth, start),
    decreases s.len() - i,
{
    if i < 0 || i >= s.len() {
    } else if is_opening(s[i]) {
        lemma_component_start_settles(s, i + 1, depth + 1, start);
    } else if is_closing(s[i]) {
        lemma_component_start_settles(
            s,
            i + 1,
            if depth == 0 { 0 } else { (depth - 1) as nat },
            start,
        );
    } else if s[i] == ':' && depth == 0 && i + 1 < s.len() && s[i + 1] == ':' {
        lemma_component_start_settles(s, i + 2, depth, i + 2);
    } else {
        lemma_component_start_settles(s, i + 1, depth, start);
    }
}

/// The last path component has no top-level path separator left: taking
/// the last component of a last component changes nothing.
pub proof fn lemma_last_path_component_idempotent(s: Seq<char>)
    ensures
        spec_last_path_component(spec_last_path_component(s)) == spec_last_path_component(s),
{
    let f = component_start(s, 0, 0, 0);
    lemma_component_start_bounds(s, 0, 0, 0);
    lemma_component_start_settles(s, 0, 0, 0);
    let t = s.subrange(f, s.len() as int);
    assert(t == s.skip(f));
    lemma_component_start_shift(s, f, 0, 0, 0);
    assert(component_start(t, 0, 0, 0) == 0);
    assert(t.subrange(0, t.len() as int) == t);
}

/// A name with no top-level path separator is its own last component.
pub proof fn lemma_plain_name_unchanged(s: Seq<char>)
    requires
        forall|i: int| 0 <= i < s.len() ==> s[i] != ':',
    ensures
        spec_last_path_component(s) == s,
{
    lemma_no_separator_keeps_start(s, 0, 0, 0);
    assert(s.subrange(0, s.len() as int) == s);
}

proof fn lemma_no_separator_keeps_start(s: Seq<char>, i: int, depth: nat, start: int)
    requires
        forall|k: int| 0 <= k < s.len() ==> s[k] != ':',
    ensures
        component_start(s, i, depth, start) == start,
    decreases s.len() - i,
{
    if i < 0 || i >= s.len() {
    } else if is_opening(s[i]) {
        lemma_no_separator_keeps_start(s, i + 1, depth + 1, start);
    } else if is_closing(s[i]) {
        lemma_no_separator_keeps_start(
            s,
            i + 1,
            if depth == 0 { 0 } else { (depth - 1) as nat },
            start,
        );
    } else {
        lemma_no_separator_keeps_start(s, i + 1, depth, start);
    }
}

/// Returns the last top-level path component of a fully qualified type
/// name, so that `crate::Record<other::Value>` becomes `Record<other::Value>`.
pub fn last_path_component(name: &str) -> (res: &str)
    ensures
        res@ == spec_last_path_component(name@),
{
    let len = name.unicode_len();
    let mut chars: Vec<char> = Vec::new();
    let mut k: usize = 0;
    while k < len
        invariant
            len == name@.len(),
            k <= len,
            chars@ == name@.subrange(0, k as int),
        decreases len - k,
    {
        chars.push(name.get_char(k));
        k = k + 1;
    }
    assert(chars@ == name@);

    let mut depth: usize = 0;
    let mut start: usize = 0;
    let mut index: usize = 0;
    while index < len
        invariant
            len == chars@.len(),
            depth <= index <= len + 1,
            start <= len,
            component_start(chars@, 0, 0, 0) == component_start(chars@, index as int, depth as nat, start as int),
        decreases len + 1 - index,
    {
        let c = chars[index];
        if c == '<' || c == '(' || c == '[' {
            depth = depth + 1;
        } else if c == '>' || c == ')' || c == ']' {
            if depth > 0 {
                depth = depth - 1;
            }
        } else if c == ':' && depth == 0 && index + 1 < len && chars[index + 1] == ':' {
            start = index + 2;
            index = index + 1;
        }
        index = index + 1;
    }
    proof {
        lemma_component_start_bounds(chars@, index as int, depth as nat, start as int);
    }
    name.substring_char(start, len)
}

} // verus!
