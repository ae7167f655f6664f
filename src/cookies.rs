//! Cookie import for a session agent: a header-style cookie string is cut at
//! each `;` and every declaration is trimmed before it goes to the jar.
use vstd::prelude::*;

verus! {

/// Whether `c` is white space in Unicode's sense, as `char::is_whitespace`
/// and `str::trim` take it.
pub open spec fn is_space(c: char) -> bool {
    c == '\t' || c == '\n' || c == '\u{0B}' || c == '\u{0C}' || c == '\r' || c == ' ' || c == '\u{85}'
        || c == '\u{A0}' || c == '\u{1680}' || ('\u{2000}' <= c && c <= '\u{200A}') || c == '\u{2028}'
        || c == '\u{2029}' || c == '\u{202F}' || c == '\u{205F}' || c == '\u{3000}'
}

fn is_space_char(c: char) -> (r: bool)
    ensures
        r == is_space(c),
{
    c == '\t' || c == '\n' || c == '\u{0B}' || c == '\u{0C}' || c == '\r' || c == ' ' || c == '\u{85}'
        || c == '\u{A0}' || c == '\u{1680}' || ('\u{2000}' <= c && c <= '\u{200A}') || c == '\u{2028}'
        || c == '\u{2029}' || c == '\u{202F}' || c == '\u{205F}' || c == '\u{3000}'
}

/// `s` cut at every `sep`; `n` separators give `n + 1` pieces, some of them
/// possibly empty.
pub open spec fn split_at_sep(s: Seq<char>, sep: char) -> Seq<Seq<char>>
    decreases s.len(),
{
    if s.len() == 0 {
        seq![Seq::<char>::empty()]
    } else {
        let prev = split_at_sep(s.drop_last(), sep);
        if s.last() == sep {
            prev.push(Seq::<char>::empty())
        } else {
            prev.update(prev.len() - 1, prev.last().push(s.last()))
        }
    }
}

/// `s` without its leading white space.
pub open spec fn trim_start(s: Seq<char>) -> Seq<char>
    decreases s.len(),
{
    if s.len() > 0 && is_space(s[0]) {
        trim_start(s.drop_first())
    } else {
        s
    }
}

/// `s` without its trailing white space.
pub open spec fn trim_end(s: Seq<char>) -> Seq<char>
    decreases s.len(),
{
    if s.len() > 0 && is_space(s.last()) {
        trim_end(s.drop_last())
    } else {
        s
    }
}

/// `s` without white space at either end.
pub open spec fn trim(s: Seq<char>) -> Seq<char> {
    trim_end(trim_start(s))
}

/// The declarations of a cookie string, trimmed, in order.
pub open spec fn cookie_declarations(s: Seq<char>) -> Seq<Seq<char>> {
    split_at_sep(s, ';').map_values(|p: Seq<char>| trim(p))
}

proof fn lemma_trim_start_from(s: Seq<char>, a: int)
    requires
        0 <= a <= s.len(),
        forall|k: int| 0 <= k < a ==> is_space(s[k]),
        a == s.len() || !is_space(s[a]),
    ensures
        trim_start(s) == s.subrange(a, s.len() as int),
    decreases a,
{
    if a == 0 {
        assert(s.subrange(0, s.len() as int) =~= s);
    } else {
        let t = s.drop_first();
        assert forall|k: int| 0 <= k < a - 1 implies is_space(t[k]) by {
            assert(t[k] == s[k + 1]);
        }
        if a - 1 < t.len() {
            assert(t[a - 1] == s[a]);
        }
        lemma_trim_start_from(t, a - 1);
        assert(t.subrange(a - 1, t.len() as int) =~= s.subrange(a, s.len() as int));
    }
}

proof fn lemma_trim_end_to(s: Seq<char>, b: int)
    requires
        0 <= b <= s.len(),
        forall|k: int| b <= k < s.len() ==> is_space(s[k]),
        b == 0 || !is_space(s[b - 1]),
    ensures
        trim_end(s) == s.subrange(0, b),
    decreases s.len() - b,
{
    if b == s.len() {
        assert(s.subrange(0, b) =~= s);
    } else {
        let t = s.drop_last();
        assert forall|k: int| b <= k < t.len() implies is_space(t[k]) by {
            assert(t[k] == s[k]);
        }
        if b > 0 {
            assert(t[b - 1] == s[b - 1]);
        }
        lemma_trim_end_to(t, b);
        assert(t.subrange(0, b) =~= s.subrange(0, b));
    }
}

/// `text` with white space removed at both ends.
pub fn trimmed(text: &str) -> (r: String)
    ensures
        r@ == trim(text@),
{
    let n = text.unicode_len();
    let mut a: usize = 0;
    while a < n && is_space_char(text.get_char(a))
        invariant
            n == text@.len(),
            a <= n,
            forall|k: int| 0 <= k < a ==> is_space(text@[k]),
        decreases n - a,
    {
        a = a + 1;
    }
    let mut b: usize = n;
    while b > a && is_space_char(text.get_char(b - 1))
        invariant
            n == text@.len(),
            a <= b <= n,
            forall|k: int| b <= k < n ==> is_space(text@[k]),
        decreases b,
    {
        b = b - 1;
    }
    proof {
        lemma_trim_start_from(text@, a as int);
        let u = text@.subrange(a as int, n as int);
        assert forall|k: int| b - a <= k < u.len() implies is_space(u[k]) by {
            assert(u[k] == text@[a + k]);
        }
        if b > a {
            assert(u[b - a - 1] == text@[b - 1]);
        }
        lemma_trim_end_to(u, b - a);
        assert(u.subrange(0, b - a) =~= text@.subrange(a as int, b as int));
    }
    text.substring_char(a, b).to_owned()
}

/// The declarations of a cookie string: the pieces between `;`
/// separators, each trimmed, in order. Pieces that end up empty or malformed
/// are kept; the jar skips what it cannot parse.
pub fn cookie_declarations_of(cookies: &str) -> (r: Vec<String>)
    ensures
        r@.len() == cookie_declarations(cookies@).len(),
        forall|i: int| 0 <= i < r@.len() ==> #[trigger] r@[i]@ == cookie_declarations(cookies@)[i],
{
    let n = cookies.unicode_len();
    let mut r: Vec<String> = Vec::new();
    let ghost mut raw: Seq<Seq<char>> = Seq::empty();
    let mut start: usize = 0;
    let mut i: usize = 0;
    proof {
        assert(cookies@.subrange(0, 0) =~= Seq::<char>::empty());
        assert(split_at_sep(Seq::<char>::empty(), ';') == raw.push(cookies@.subrange(0, 0)));
    }
    while i < n
        invariant
            n == cookies@.len(),
            start <= i <= n,
            split_at_sep(cookies@.subrange(0, i as int), ';') == raw.push(cookies@.subrange(start as int, i as int)),
            r@.len() == raw.len(),
            forall|j: int| 0 <= j < r@.len() ==> #[trigger] r@[j]@ == trim(raw[j]),
        decreases n - i,
    {
        let c = cookies.get_char(i);
        let ghost pre = cookies@.subrange(0, i as int + 1);
        proof {
            assert(pre.drop_last() =~= cookies@.subrange(0, i as int));
            assert(pre.last() == c);
        }
        if c == ';' {
            let piece = trimmed(cookies.substring_char(start, i));
            r.push(piece);
            proof {
                raw = raw.push(cookies@.subrange(start as int, i as int));
                assert(cookies@.subrange(i as int + 1, i as int + 1) =~= Seq::<char>::empty());
            }
            start = i + 1;
        } else {
            proof {
                assert(cookies@.subrange(start as int, i as int).push(c) =~= cookies@.subrange(start as int, i as int + 1));
                let prev = raw.push(cookies@.subrange(start as int, i as int));
                assert(prev.update(prev.len() - 1, prev.last().push(c)) =~= raw.push(cookies@.subrange(start as int, i as int + 1)));
            }
        }
        i = i + 1;
    }
    let last = trimmed(cookies.substring_char(start, n));
    r.push(last);
    proof {
        raw = raw.push(cookies@.subrange(start as int, n as int));
        assert(cookies@.subrange(0, n as int) =~= cookies@);
    }
    r
}

} // verus!
