use vstd::prelude::*;
use crate::eel::chars::{collect_chars, str_chars};

verus! {

/// The marker that introduces a preset shader's body.
pub open spec fn shader_body_keyword() -> Seq<char> {
    seq!['s', 'h', 'a', 'd', 'e', 'r', '_', 'b', 'o', 'd', 'y']
}

/// `pat` occurs in `s` at `i`.
pub open spec fn occurs_at(s: Seq<char>, i: int, pat: Seq<char>) -> bool {
    0 <= i && i + pat.len() <= s.len() && s.subrange(i, i + pat.len()) == pat
}

/// The first occurrence of `pat` in `s` at or after `i`.
pub open spec fn find_from(s: Seq<char>, pat: Seq<char>, i: int) -> Option<int>
    decreases s.len() + 1 - i,
{
    if i < 0 || i + pat.len() > s.len() {
        None
    } else if occurs_at(s, i, pat) {
        Some(i)
    } else {
        find_from(s, pat, i + 1)
    }
}

/// The first `c` in `s` at or after `i`.
pub open spec fn find_char_from(s: Seq<char>, c: char, i: int) -> Option<int>
    decreases s.len() - i,
{
    if i < 0 || i >= s.len() {
        None
    } else if s[i] == c {
        Some(i)
    } else {
        find_char_from(s, c, i + 1)
    }
}

/// Scanning from `i` with `depth` unmatched `{`, the position of the `}` that
/// closes the first one, or the end of `s` if none does.
pub open spec fn close_brace(s: Seq<char>, i: int, depth: int) -> int
    decreases s.len() - i,
{
    if i < 0 || i >= s.len() {
        s.len() as int
    } else if s[i] == '{' {
        close_brace(s, i + 1, depth + 1)
    } else if s[i] == '}' {
        if depth <= 1 {
            i
        } else {
            close_brace(s, i + 1, depth - 1)
        }
    } else {
        close_brace(s, i + 1, depth)
    }
}

/// The body of `shader_body { ... }`: the text after the first `{` that
/// follows the first `shader_body`, up to its matching `}` (or the end);
/// empty when either marker is missing.
pub open spec fn spec_extract_shader_body(s: Seq<char>) -> Seq<char> {
    match find_from(s, shader_body_keyword(), 0) {
        None => Seq::empty(),
        Some(k) => match find_char_from(s, '{', k + shader_body_keyword().len()) {
            None => Seq::empty(),
            Some(o) => s.subrange(o + 1, close_brace(s, o + 1, 1)),
        },
    }
}

pub proof fn lemma_close_brace_bounds(s: Seq<char>, i: int, depth: int)
    requires
        0 <= i <= s.len(),
    ensures
        i <= close_brace(s, i, depth) <= s.len(),
    decreases s.len() - i,
{
    if i < s.len() {
        if s[i] == '{' {
            lemma_close_brace_bounds(s, i + 1, depth + 1);
        } else if s[i] == '}' {
            if depth > 1 {
                lemma_close_brace_bounds(s, i + 1, depth - 1);
            }
        } else {
            lemma_close_brace_bounds(s, i + 1, depth);
        }
    }
}

pub proof fn lemma_find_char_bounds(s: Seq<char>, c: char, i: int)
    ensures
        find_char_from(s, c, i) matches Some(o) ==> i <= o < s.len() && s[o] == c,
    decreases s.len() - i,
{
    if 0 <= i < s.len() && s[i] != c {
        lemma_find_char_bounds(s, c, i + 1);
    }
}

/// The extracted body is a piece of the input, taken verbatim.
pub proof fn law_extracted_body_is_part_of_input(s: Seq<char>)
    ensures
        exists|i: int, j: int|
            0 <= i <= j <= s.len() && #[trigger] s.subrange(i, j) == spec_extract_shader_body(s),
{
    match find_from(s, shader_body_keyword(), 0) {
        None => {
            assert(s.subrange(0, 0) =~= spec_extract_shader_body(s));
        },
        Some(k) => {
            let from = k + shader_body_keyword().len();
            lemma_find_char_bounds(s, '{', from);
            match find_char_from(s, '{', from) {
                None => {
                    assert(s.subrange(0, 0) =~= spec_extract_shader_body(s));
                },
                Some(o) => {
                    lemma_close_brace_bounds(s, o + 1, 1);
                    let j = close_brace(s, o + 1, 1);
                    assert(s.subrange(o + 1, j) == spec_extract_shader_body(s));
                },
            }
        },
    }
}

/// `{` counts one up, `}` one down.
pub open spec fn brace_balance(b: Seq<char>) -> int
    decreases b.len(),
{
    if b.len() == 0 {
        0
    } else {
        brace_balance(b.drop_last()) + if b.last() == '{' {
            1int
        } else if b.last() == '}' {
            -1int
        } else {
            0int
        }
    }
}

/// Every `}` in `b` closes a `{` of `b`, and every `{` is closed.
pub open spec fn balanced(b: Seq<char>) -> bool {
    &&& brace_balance(b) == 0
    &&& forall|k: int| 0 <= k <= b.len() ==> brace_balance(#[trigger] b.take(k)) >= 0
}

proof fn lemma_find_from_first(s: Seq<char>, pat: Seq<char>, i: int, j: int)
    requires
        0 <= i <= j,
        occurs_at(s, j, pat),
        forall|m: int| i <= m < j ==> !occurs_at(s, m, pat),
    ensures
        find_from(s, pat, i) == Some(j),
    decreases j - i,
{
    if i < j {
        lemma_find_from_first(s, pat, i + 1, j);
    }
}

proof fn lemma_find_char_first(s: Seq<char>, c: char, i: int, j: int)
    requires
        0 <= i <= j < s.len(),
        s[j] == c,
        forall|m: int| i <= m < j ==> s[m] != c,
    ensures
        find_char_from(s, c, i) == Some(j),
    decreases j - i,
{
    if i < j {
        lemma_find_char_first(s, c, i + 1, j);
    }
}

proof fn lemma_close_brace_balanced(s: Seq<char>, start: int, b: Seq<char>, k: int)
    requires
        0 <= start,
        start + b.len() < s.len(),
        s.subrange(start, start + b.len()) == b,
        s[start + b.len()] == '}',
        balanced(b),
        0 <= k <= b.len(),
    ensures
        close_brace(s, start, 1) == close_brace(s, start + k, 1 + brace_balance(b.take(k))),
    decreases k,
{
    if k > 0 {
        lemma_close_brace_balanced(s, start, b, k - 1);
        let c = b[k - 1];
        assert(b.take(k).drop_last() =~= b.take(k - 1));
        assert(s[start + k - 1] == c) by {
            assert(s.subrange(start, start + b.len())[k - 1] == s[start + k - 1]);
        }
        assert(brace_balance(b.take(k)) >= 0);
        assert(brace_balance(b.take(k - 1)) >= 0);
    } else {
        assert(b.take(0) =~= Seq::<char>::empty());
    }
}

/// A balanced body after the first `shader_body` marker and its first `{` is
/// extracted exactly, whatever follows its closing `}`.
pub proof fn law_extract_balanced_body(
    prefix: Seq<char>,
    gap: Seq<char>,
    body: Seq<char>,
    rest: Seq<char>,
)
    requires
        forall|i: int|
            0 <= i < prefix.len() ==> !occurs_at(
                prefix + shader_body_keyword() + gap + seq!['{'] + body + seq!['}'] + rest,
                i,
                shader_body_keyword(),
            ),
        forall|i: int| 0 <= i < gap.len() ==> gap[i] != '{',
        balanced(body),
    ensures
        spec_extract_shader_body(
            prefix + shader_body_keyword() + gap + seq!['{'] + body + seq!['}'] + rest,
        ) == body,
{
    let kw = shader_body_keyword();
    let s = prefix + kw + gap + seq!['{'] + body + seq!['}'] + rest;
    let k = prefix.len() as int;
    let o = k + 11 + gap.len();
    let start = o + 1;
    assert(s.subrange(k, k + 11) =~= kw);
    lemma_find_from_first(s, kw, 0, k);
    assert forall|m: int| k + 11 <= m < o implies s[m] != '{' by {
        assert(s[m] == gap[m - k - 11]);
    }
    assert(s[o] == '{');
    lemma_find_char_first(s, '{', k + 11, o);
    assert(s.subrange(start, start + body.len()) =~= body);
    assert(s[start + body.len()] == '}');
    lemma_close_brace_balanced(s, start, body, body.len() as int);
    assert(body.take(body.len() as int) =~= body);
    assert(s.subrange(start, start + body.len()) == body);
}

fn keyword_at(chars: &Vec<char>, i: usize) -> (r: bool)
    requires
        i + 11 <= chars.len(),
    ensures
        r == occurs_at(chars@, i as int, shader_body_keyword()),
{
    let kw: Vec<char> = vec!['s', 'h', 'a', 'd', 'e', 'r', '_', 'b', 'o', 'd', 'y'];
    assert(kw@ == shader_body_keyword());
    let mut j: usize = 0;
    while j < 11
        invariant
            j <= 11,
            i + 11 <= chars.len(),
            kw@ == shader_body_keyword(),
            forall|m: int| 0 <= m < j ==> chars@[i + m] == kw@[m],
        decreases 11 - j,
    {
        if chars[i + j] != kw[j] {
            assert(chars@.subrange(i as int, i + 11)[j as int] != shader_body_keyword()[j as int]);
            return false;
        }
        j += 1;
    }
    assert(chars@.subrange(i as int, i + 11) =~= shader_body_keyword());
    true
}

/// Extracts the body of `shader_body { ... }` from a preset shader field.
pub fn extract_shader_body(src: &str) -> (body: String)
    ensures
        body@ == spec_extract_shader_body(src@),
{
    let chars = str_chars(src);
    let ghost s = chars@;
    let n = chars.len();
    let mut k: usize = 0;
    let mut found = false;
    while !found && 11 <= n - k
        invariant
            k <= n,
            chars@ == s,
            n == s.len(),
            found ==> k + 11 <= n && occurs_at(s, k as int, shader_body_keyword()),
            find_from(s, shader_body_keyword(), 0) == find_from(s, shader_body_keyword(), k as int),
        decreases n - k, (if found { 0int } else { 1int }),
    {
        if keyword_at(&chars, k) {
            found = true;
        } else {
            k += 1;
        }
    }
    if !found {
        return String::new();
    }
    let mut o = k + 11;
    while o < n && chars[o] != '{'
        invariant
            chars@ == s,
            n == s.len(),
            k + 11 <= o <= n,
            find_char_from(s, '{', k + 11) == find_char_from(s, '{', o as int),
        decreases n - o,
    {
        o += 1;
    }
    if o >= n {
        return String::new();
    }
    let start = o + 1;
    let mut depth: usize = 1;
    let mut i = start;
    let mut end = n;
    while i < n
        invariant_except_break
            depth >= 1,
            end == n,
            close_brace(s, start as int, 1) == close_brace(s, i as int, depth as int),
        invariant
            start >= 1,
            chars@ == s,
            n == s.len(),
            start <= i <= n,
            depth <= i - start + 1,
        ensures
            start <= end <= n,
            end == close_brace(s, start as int, 1),
        decreases n - i,
    {
        let c = chars[i];
        if c == '{' {
            depth += 1;
        } else if c == '}' {
            depth -= 1;
            if depth == 0 {
                end = i;
                break;
            }
        }
        i += 1;
    }
    collect_chars(&chars, start, end)
}

} // verus!
