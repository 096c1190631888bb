//! Text primitives over the character view of strings.

use vstd::prelude::*;
use vstd::string::*;

verus! {

/// `sub` occurs in `s` at position `i`.
pub open spec fn occurs_at(s: Seq<char>, sub: Seq<char>, i: int) -> bool {
    &&& 0 <= i
    &&& i + sub.len() <= s.len()
    &&& s.subrange(i, i + sub.len()) == sub
}

/// `sub` occurs somewhere in `s` (the empty string occurs everywhere).
pub open spec fn contains_seq(s: Seq<char>, sub: Seq<char>) -> bool {
    exists|i: int| occurs_at(s, sub, i)
}

/// `s` begins with `prefix`.
pub open spec fn starts_with_seq(s: Seq<char>, prefix: Seq<char>) -> bool {
    occurs_at(s, prefix, 0)
}

/// The characters of a string slice, in order.
pub fn chars_of(s: &str) -> (v: Vec<char>)
    ensures
        v@ == s@,
{
    let n = s.unicode_len();
    let mut v: Vec<char> = Vec::new();
    let mut i: usize = 0;
    while i < n
        invariant
            n == s@.len(),
            i <= n,
            v@ == s@.subrange(0, i as int),
        decreases n - i,
    {
        let c = s.get_char(i);
        v.push(c);
        i = i + 1;
        assert(v@ =~= s@.subrange(0, i as int));
    }
    assert(v@ =~= s@);
    v
}

/// Whether `sub` occurs in `s` at position `i`, on character vectors.
fn occurs_at_vec(s: &Vec<char>, sub: &Vec<char>, i: usize) -> (r: bool)
    requires
        i + sub@.len() <= s@.len(),
    ensures
        r == occurs_at(s@, sub@, i as int),
{
    let n = sub.len();
    let m = s.len();
    let mut j: usize = 0;
    while j < n
        invariant
            n == sub@.len(),
            m == s@.len(),
            i + n <= s@.len(),
            j <= n,
            forall|k: int| 0 <= k < j ==> s@[i + k] == sub@[k],
        decreases n - j,
    {
        if s[i + j] != sub[j] {
            assert(s@.subrange(i as int, i + sub@.len())[j as int] != sub@[j as int]);
            return false;
        }
        j = j + 1;
    }
    assert(s@.subrange(i as int, i + sub@.len()) =~= sub@);
    true
}

/// Whether `sub` occurs in `s`, on character vectors.
pub fn contains_chars(s: &Vec<char>, sub: &Vec<char>) -> (r: bool)
    ensures
        r == contains_seq(s@, sub@),
{
    if sub.len() > s.len() {
        return false;
    }
    let last = s.len() - sub.len();
    let mut i: usize = 0;
    while i < last
        invariant
            i <= last,
            last + sub@.len() == s@.len(),
            forall|k: int| 0 <= k < i ==> !occurs_at(s@, sub@, k),
        decreases last - i,
    {
        if occurs_at_vec(s, sub, i) {
            return true;
        }
        i = i + 1;
    }
    occurs_at_vec(s, sub, last)
}

/// `str::contains` with a string pattern.
pub fn contains_str(s: &str, sub: &str) -> (r: bool)
    ensures
        r == contains_seq(s@, sub@),
{
    let sv = chars_of(s);
    let pv = chars_of(sub);
    contains_chars(&sv, &pv)
}

/// Rust's `char::is_whitespace`: the characters with the Unicode
/// `White_Space` property.
pub open spec fn is_ws(c: char) -> bool {
    ||| '\u{9}' <= c <= '\u{D}'
    ||| c == ' '
    ||| c == '\u{85}'
    ||| c == '\u{A0}'
    ||| c == '\u{1680}'
    ||| '\u{2000}' <= c <= '\u{200A}'
    ||| c == '\u{2028}'
    ||| c == '\u{2029}'
    ||| c == '\u{202F}'
    ||| c == '\u{205F}'
    ||| c == '\u{3000}'
}

/// `char::is_whitespace`.
pub fn is_whitespace(c: char) -> (r: bool)
    ensures
        r == is_ws(c),
{
    ('\u{9}' <= c && c <= '\u{D}') || c == ' ' || c == '\u{85}' || c == '\u{A0}' || c == '\u{1680}'
        || ('\u{2000}' <= c && c <= '\u{200A}') || c == '\u{2028}' || c == '\u{2029}' || c
        == '\u{202F}' || c == '\u{205F}' || c == '\u{3000}'
}

/// The first position at or after `i` whose character does not satisfy `p`
/// (or the length of `s` when there is none).
pub open spec fn skip_while(s: Seq<char>, p: spec_fn(char) -> bool, i: int) -> int
    decreases s.len() - i,
{
    if 0 <= i < s.len() && p(s[i]) {
        skip_while(s, p, i + 1)
    } else {
        i
    }
}

/// Walking back from `j` towards `lo`, the end of the last character that
/// does not satisfy `p` (or `lo` when every character in between does).
pub open spec fn skip_back_while(s: Seq<char>, p: spec_fn(char) -> bool, lo: int, j: int) -> int
    decreases j - lo,
{
    if lo < j <= s.len() && p(s[j - 1]) {
        skip_back_while(s, p, lo, j - 1)
    } else {
        j
    }
}

/// `s` with the characters satisfying `p` removed from both ends
/// (`str::trim_matches` with a character predicate).
pub open spec fn trim_by(s: Seq<char>, p: spec_fn(char) -> bool) -> Seq<char> {
    let a = skip_while(s, p, 0);
    let b = skip_back_while(s, p, a, s.len() as int);
    s.subrange(a, b)
}

/// `is_ws` as a predicate value.
pub open spec fn ws_pred() -> spec_fn(char) -> bool {
    |c: char| is_ws(c)
}

/// `str::trim`: whitespace removed from both ends.
pub open spec fn trim_ws(s: Seq<char>) -> Seq<char> {
    trim_by(s, ws_pred())
}

pub proof fn lemma_skip_while_bounds(s: Seq<char>, p: spec_fn(char) -> bool, i: int)
    requires
        0 <= i <= s.len(),
    ensures
        i <= skip_while(s, p, i) <= s.len(),
        forall|k: int| i <= k < skip_while(s, p, i) ==> p(s[k]),
        skip_while(s, p, i) < s.len() ==> !p(s[skip_while(s, p, i)]),
    decreases s.len() - i,
{
    if i < s.len() && p(s[i]) {
        lemma_skip_while_bounds(s, p, i + 1);
    }
}

pub proof fn lemma_skip_back_while_bounds(s: Seq<char>, p: spec_fn(char) -> bool, lo: int, j: int)
    requires
        0 <= lo <= j <= s.len(),
    ensures
        lo <= skip_back_while(s, p, lo, j) <= j,
        forall|k: int| skip_back_while(s, p, lo, j) <= k < j ==> p(s[k]),
        skip_back_while(s, p, lo, j) > lo ==> !p(s[skip_back_while(s, p, lo, j) - 1]),
    decreases j - lo,
{
    if lo < j && p(s[j - 1]) {
        lemma_skip_back_while_bounds(s, p, lo, j - 1);
    }
}

/// Law: trimming removes whitespace from both ends and nothing else: the
/// result is a contiguous part of `s`, everything before and after it is
/// whitespace, and it neither starts nor ends with whitespace.
pub proof fn law_trim_ws(s: Seq<char>)
    ensures
        exists|a: int, b: int| #![trigger s.subrange(a, b)] {
            &&& 0 <= a <= b <= s.len()
            &&& trim_ws(s) == s.subrange(a, b)
            &&& forall|k: int| 0 <= k < a ==> is_ws(#[trigger] s[k])
            &&& forall|k: int| b <= k < s.len() ==> is_ws(#[trigger] s[k])
        },
        trim_ws(s).len() > 0 ==> !is_ws(trim_ws(s)[0]) && !is_ws(trim_ws(s).last()),
{
    let p = ws_pred();
    lemma_skip_while_bounds(s, p, 0);
    let a = skip_while(s, p, 0);
    lemma_skip_back_while_bounds(s, p, a, s.len() as int);
    let b = skip_back_while(s, p, a, s.len() as int);
    let t = s.subrange(a, b);
    assert(trim_ws(s) == t);
    assert forall|k: int| 0 <= k < a implies is_ws(#[trigger] s[k]) by {
        assert(p(s[k]));
    }
    assert forall|k: int| b <= k < s.len() implies is_ws(#[trigger] s[k]) by {
        assert(p(s[k]));
    }
    if t.len() > 0 {
        assert(t[0] == s[a]);
        assert(t.last() == s[b - 1]);
        assert(!p(s[a]));
        assert(!p(s[b - 1]));
    }
}

/// Appends one character to a string (`String::push`).
#[verifier::external_body]
pub(crate) fn push_char(s: &mut String, c: char)
    ensures
        final(s)@ == old(s)@.push(c),
{
    s.push(c);
}

/// The string made of `v[from..to]`.
pub fn string_from_range(v: &Vec<char>, from: usize, to: usize) -> (r: String)
    requires
        from <= to <= v@.len(),
    ensures
        r@ == v@.subrange(from as int, to as int),
{
    let mut r = String::new();
    let mut i = from;
    while i < to
        invariant
            from <= i <= to <= v@.len(),
            r@ == v@.subrange(from as int, i as int),
        decreases to - i,
    {
        push_char(&mut r, v[i]);
        i = i + 1;
        assert(r@ =~= v@.subrange(from as int, i as int));
    }
    r
}

/// `str::trim`.
pub fn trim(s: &str) -> (r: String)
    ensures
        r@ == trim_ws(s@),
{
    let v = chars_of(s);
    let n = v.len();
    let ghost p = ws_pred();
    let mut a: usize = 0;
    while a < n && is_whitespace(v[a])
        invariant
            n == v@.len(),
            v@ == s@,
            p == ws_pred(),
            a <= n,
            skip_while(s@, p, 0) == skip_while(s@, p, a as int),
        decreases n - a,
    {
        assert(p(s@[a as int]));
        a = a + 1;
    }
    let mut b: usize = n;
    while b > a && is_whitespace(v[b - 1])
        invariant
            n == v@.len(),
            v@ == s@,
            p == ws_pred(),
            a <= b <= n,
            a == skip_while(s@, p, 0),
            skip_back_while(s@, p, a as int, n as int) == skip_back_while(s@, p, a as int, b as int),
        decreases b - a,
    {
        assert(p(s@[b - 1]));
        b = b - 1;
    }
    string_from_range(&v, a, b)
}

/// `s` with every character listed in `cs` removed
/// (`str::replace(c, "")`, or `str::replace([a, b], "")`).
pub open spec fn remove_chars_seq(s: Seq<char>, cs: Seq<char>) -> Seq<char> {
    s.filter(|x: char| !cs.contains(x))
}


/// The whitespace-separated words of `s[i..]`, where `cur` holds the
/// characters of the word being read when position `i` is reached.
pub open spec fn words_from(s: Seq<char>, i: int, cur: Seq<char>) -> Seq<Seq<char>>
    decreases s.len() - i,
{
    if i >= s.len() || i < 0 {
        if cur.len() > 0 {
            seq![cur]
        } else {
            seq![]
        }
    } else if is_ws(s[i]) {
        (if cur.len() > 0 {
            seq![cur]
        } else {
            seq![]
        }) + words_from(s, i + 1, seq![])
    } else {
        words_from(s, i + 1, cur.push(s[i]))
    }
}

/// `str::split_whitespace`: the maximal runs of non-whitespace characters.
pub open spec fn split_ws(s: Seq<char>) -> Seq<Seq<char>> {
    words_from(s, 0, seq![])
}

/// The views of a vector of strings.
pub open spec fn views(v: Seq<String>) -> Seq<Seq<char>> {
    v.map_values(|w: String| w@)
}

/// `str::split_whitespace`.
pub fn split_whitespace(s: &str) -> (r: Vec<String>)
    ensures
        views(r@) == split_ws(s@),
{
    let v = chars_of(s);
    let n = v.len();
    let mut out: Vec<String> = Vec::new();
    let mut cur = String::new();
    let mut i: usize = 0;
    while i < n
        invariant
            n == v@.len(),
            v@ == s@,
            i <= n,
            views(out@) + words_from(s@, i as int, cur@) == split_ws(s@),
        decreases n - i,
    {
        let c = v[i];
        if is_whitespace(c) {
            let ghost rest = words_from(s@, i + 1, seq![]);
            if cur.unicode_len() > 0 {
                let ghost before = out@;
                let ghost w = cur@;
                out.push(cur);
                assert(views(out@) =~= views(before) + seq![w]);
                assert(views(before) + (seq![w] + rest) =~= views(out@) + rest);
                cur = String::new();
            } else {
                assert(cur@ =~= seq![]);
                assert(seq![] + rest =~= rest);
            }
        } else {
            push_char(&mut cur, c);
        }
        i = i + 1;
    }
    if cur.unicode_len() > 0 {
        let ghost before = out@;
        let ghost w = cur@;
        out.push(cur);
        assert(views(out@) =~= views(before) + seq![w]);
    } else {
        assert(views(out@) + seq![] =~= views(out@));
    }
    out
}

/// A line that ended in a line feed loses a carriage return before it.
pub open spec fn strip_cr(line: Seq<char>) -> Seq<char> {
    if line.len() > 0 && line.last() == '\r' {
        line.drop_last()
    } else {
        line
    }
}

/// The lines of `s[i..]`, where `cur` holds the characters of the line being
/// read when position `i` is reached.
pub open spec fn lines_from(s: Seq<char>, i: int, cur: Seq<char>) -> Seq<Seq<char>>
    decreases s.len() - i,
{
    if i >= s.len() || i < 0 {
        if cur.len() > 0 {
            seq![cur]
        } else {
            seq![]
        }
    } else if s[i] == '\n' {
        seq![strip_cr(cur)] + lines_from(s, i + 1, seq![])
    } else {
        lines_from(s, i + 1, cur.push(s[i]))
    }
}

/// `str::lines`: the text split at line feeds, a final empty line dropped,
/// and a carriage return before a line feed removed.
pub open spec fn split_lines(s: Seq<char>) -> Seq<Seq<char>> {
    lines_from(s, 0, seq![])
}

/// `str::lines`.
pub fn lines(s: &str) -> (r: Vec<String>)
    ensures
        views(r@) == split_lines(s@),
{
    let v = chars_of(s);
    let n = v.len();
    let mut out: Vec<String> = Vec::new();
    let mut cur: Vec<char> = Vec::new();
    let mut i: usize = 0;
    while i < n
        invariant
            n == v@.len(),
            v@ == s@,
            i <= n,
            views(out@) + lines_from(s@, i as int, cur@) == split_lines(s@),
        decreases n - i,
    {
        let c = v[i];
        if c == '\n' {
            let m = cur.len();
            let end = if m > 0 && cur[m - 1] == '\r' { m - 1 } else { m };
            let line = string_from_range(&cur, 0, end);
            assert(line@ =~= strip_cr(cur@));
            let ghost before = out@;
            out.push(line);
            assert(views(out@) =~= views(before) + seq![strip_cr(cur@)]);
            cur = Vec::new();
        } else {
            cur.push(c);
        }
        i = i + 1;
    }
    if cur.len() > 0 {
        let line = string_from_range(&cur, 0, cur.len());
        assert(line@ =~= cur@);
        let ghost before = out@;
        out.push(line);
        assert(views(out@) =~= views(before) + seq![cur@]);
    } else {
        assert(views(out@) + seq![] =~= views(out@));
    }
    out
}

/// String equality.
pub fn str_eq(a: &str, b: &str) -> (r: bool)
    ensures
        r == (a@ == b@),
{
    let av = chars_of(a);
    let bv = chars_of(b);
    if av.len() != bv.len() {
        return false;
    }
    let r = occurs_at_vec(&av, &bv, 0);
    assert(r ==> av@.subrange(0, bv@.len() as int) =~= av@);
    assert(a@ == b@ ==> av@.subrange(0, bv@.len() as int) =~= bv@);
    r
}

/// `str::starts_with` with a string pattern.
pub fn starts_with_str(s: &str, prefix: &str) -> (r: bool)
    ensures
        r == starts_with_seq(s@, prefix@),
{
    let sv = chars_of(s);
    let pv = chars_of(prefix);
    if pv.len() > sv.len() {
        return false;
    }
    occurs_at_vec(&sv, &pv, 0)
}

/// What `str::to_lowercase` returns for a string: its lowercase mapping
/// under the Unicode `Lowercase` property, as the standard library computes it.
pub uninterp spec fn lowercase(s: Seq<char>) -> Seq<char>;

/// Whether every character of `s` is ASCII.
pub open spec fn is_ascii_seq(s: Seq<char>) -> bool {
    forall|i: int| 0 <= i < s.len() ==> (#[trigger] s[i] as u32) < 128
}

/// The ASCII lowercase of `c`: 'A' to 'Z' become 'a' to 'z', all else stays.
pub open spec fn ascii_lower_char(c: char) -> char {
    if 'A' <= c && c <= 'Z' {
        ((c as u32 + 32) as u32) as char
    } else {
        c
    }
}

/// The ASCII uppercase of `c`: 'a' to 'z' become 'A' to 'Z', all else stays.
pub open spec fn ascii_upper_char(c: char) -> char {
    if 'a' <= c && c <= 'z' {
        ((c as u32 - 32) as u32) as char
    } else {
        c
    }
}

/// `s` with each character in ASCII lowercase.
pub open spec fn ascii_lower(s: Seq<char>) -> Seq<char> {
    s.map_values(|c: char| ascii_lower_char(c))
}

/// `s` with each character in ASCII uppercase.
pub open spec fn ascii_upper(s: Seq<char>) -> Seq<char> {
    s.map_values(|c: char| ascii_upper_char(c))
}

/// ASCII case folding is idempotent and undoes ASCII uppercasing, and both
/// keep a string ASCII.
pub proof fn lemma_ascii_fold(s: Seq<char>)
    requires
        is_ascii_seq(s),
    ensures
        is_ascii_seq(ascii_lower(s)),
        is_ascii_seq(ascii_upper(s)),
        ascii_lower(ascii_lower(s)) == ascii_lower(s),
        ascii_lower(ascii_upper(s)) == ascii_lower(s),
{
    assert forall|i: int| 0 <= i < s.len() implies ascii_lower_char(ascii_lower_char(s[i])) == ascii_lower_char(s[i])
        && ascii_lower_char(ascii_upper_char(s[i])) == ascii_lower_char(s[i]) by {
        let c = s[i];
        let u = c as u32;
        vstd::utf8::char_u32_cast(c, u);
        if 'A' <= c && c <= 'Z' {
            vstd::utf8::char_u32_cast(ascii_lower_char(c), (u + 32) as u32);
        }
        if 'a' <= c && c <= 'z' {
            vstd::utf8::char_u32_cast(ascii_upper_char(c), (u - 32) as u32);
        }
    }
    assert(ascii_lower(ascii_lower(s)) =~= ascii_lower(s));
    assert(ascii_lower(ascii_upper(s)) =~= ascii_lower(s));
}

/// `str::to_lowercase`, which maps each character by Unicode's lowercase
/// mapping. The contract claims that the result is a function of the
/// characters of `s`, named `lowercase`, and, as the documentation shows
/// (it lowercases ASCII letters as well as all others, and the Unicode
/// lowercase of 'A' to 'Z' is 'a' to 'z', of any other ASCII character
/// itself), that on an ASCII string it is the ASCII lowercase. The mapping of
/// other characters is not stated.
#[verifier::external_body]
pub(crate) fn to_lowercase(s: &str) -> (r: String)
    ensures
        r@ == lowercase(s@),
        is_ascii_seq(s@) ==> r@ == ascii_lower(s@),
{
    s.to_lowercase()
}

/// Whether `c` is listed in `cs`.
fn listed(cs: &Vec<char>, c: char) -> (r: bool)
    ensures
        r == cs@.contains(c),
{
    let mut i: usize = 0;
    while i < cs.len()
        invariant
            i <= cs@.len(),
            forall|k: int| 0 <= k < i ==> cs@[k] != c,
        decreases cs@.len() - i,
    {
        if cs[i] == c {
            return true;
        }
        i = i + 1;
    }
    false
}

/// `s` with every character listed in `cs` removed.
pub fn remove_chars(s: &str, cs: &Vec<char>) -> (r: String)
    ensures
        r@ == remove_chars_seq(s@, cs@),
{
    let v = chars_of(s);
    let n = v.len();
    let mut r = String::new();
    let mut i: usize = 0;
    while i < n
        invariant
            n == v@.len(),
            v@ == s@,
            i <= n,
            r@ == remove_chars_seq(s@.subrange(0, i as int), cs@),
        decreases n - i,
    {
        proof {
            reveal(Seq::filter);
            assert(s@.subrange(0, i + 1).drop_last() =~= s@.subrange(0, i as int));
        }
        if !listed(cs, v[i]) {
            push_char(&mut r, v[i]);
        }
        i = i + 1;
    }
    assert(s@.subrange(0, n as int) =~= s@);
    r
}

/// How many entries of `items`, normalized by `norm`, occur in `q`;
/// with `skip_empty`, entries that normalize to the empty string do not count.
pub open spec fn count_hits(
    q: Seq<char>,
    items: Seq<Seq<char>>,
    norm: spec_fn(Seq<char>) -> Seq<char>,
    skip_empty: bool,
) -> nat
    decreases items.len(),
{
    if items.len() == 0 {
        0
    } else {
        let k = norm(items.last());
        count_hits(q, items.drop_last(), norm, skip_empty) + if (!skip_empty || k.len() > 0)
            && contains_seq(q, k) {
            1nat
        } else {
            0nat
        }
    }
}

/// The normalization that lowercases.
pub open spec fn lower_norm() -> spec_fn(Seq<char>) -> Seq<char> {
    |s: Seq<char>| lowercase(s)
}

/// The normalization that removes the characters `cs`, then lowercases.
pub open spec fn strip_lower_norm(cs: Seq<char>) -> spec_fn(Seq<char>) -> Seq<char> {
    |s: Seq<char>| lowercase(remove_chars_seq(s, cs))
}

pub proof fn lemma_count_hits_bound(
    q: Seq<char>,
    items: Seq<Seq<char>>,
    norm: spec_fn(Seq<char>) -> Seq<char>,
    skip_empty: bool,
)
    ensures
        count_hits(q, items, norm, skip_empty) <= items.len(),
    decreases items.len(),
{
    if items.len() > 0 {
        lemma_count_hits_bound(q, items.drop_last(), norm, skip_empty);
    }
}

/// One more item adds one hit exactly when it, normalized, occurs in `q`
/// (and, where empty ones are skipped, is not empty).
pub proof fn lemma_count_hits_push(
    q: Seq<char>,
    items: Seq<Seq<char>>,
    x: Seq<char>,
    norm: spec_fn(Seq<char>) -> Seq<char>,
    skip_empty: bool,
)
    ensures
        count_hits(q, items.push(x), norm, skip_empty) == count_hits(q, items, norm, skip_empty) + if (!skip_empty
            || norm(x).len() > 0) && contains_seq(q, norm(x)) {
            1nat
        } else {
            0nat
        },
{
    assert(items.push(x).drop_last() =~= items);
}

/// Where some item, normalized, occurs in `q` (and is not empty, where
/// empty ones are skipped), there is at least one hit.
pub proof fn lemma_count_hits_positive(
    q: Seq<char>,
    items: Seq<Seq<char>>,
    norm: spec_fn(Seq<char>) -> Seq<char>,
    skip_empty: bool,
    i: int,
)
    requires
        0 <= i < items.len(),
        (!skip_empty || norm(items[i]).len() > 0) && contains_seq(q, norm(items[i])),
    ensures
        count_hits(q, items, norm, skip_empty) >= 1,
    decreases items.len(),
{
    if i < items.len() - 1 {
        assert(items.drop_last()[i] == items[i]);
        lemma_count_hits_positive(q, items.drop_last(), norm, skip_empty, i);
    }
}

/// How many of `items`, lowercased, occur in `q`.
pub fn count_lower_hits(q: &Vec<char>, items: &Vec<String>) -> (r: usize)
    ensures
        r == count_hits(q@, views(items@), lower_norm(), false),
{
    let n = items.len();
    let mut r: usize = 0;
    let mut i: usize = 0;
    while i < n
        invariant
            n == items@.len(),
            i <= n,
            r == count_hits(q@, views(items@).subrange(0, i as int), lower_norm(), false),
        decreases n - i,
    {
        proof {
            lemma_count_hits_bound(q@, views(items@).subrange(0, i as int), lower_norm(), false);
            assert(views(items@).subrange(0, i + 1).drop_last() =~= views(items@).subrange(0, i as int));
        }
        let k = to_lowercase(items[i].as_str());
        let kv = chars_of(k.as_str());
        if contains_chars(q, &kv) {
            r = r + 1;
        }
        i = i + 1;
    }
    assert(views(items@).subrange(0, n as int) =~= views(items@));
    r
}

/// How many of `items`, with the characters `cs` removed and lowercased,
/// occur in `q`; with `skip_empty`, entries that become empty do not count.
pub fn count_stripped_hits(q: &Vec<char>, items: &Vec<String>, cs: &Vec<char>, skip_empty: bool) -> (r: usize)
    ensures
        r == count_hits(q@, views(items@), strip_lower_norm(cs@), skip_empty),
{
    let n = items.len();
    let mut r: usize = 0;
    let mut i: usize = 0;
    while i < n
        invariant
            n == items@.len(),
            i <= n,
            r == count_hits(q@, views(items@).subrange(0, i as int), strip_lower_norm(cs@), skip_empty),
        decreases n - i,
    {
        proof {
            lemma_count_hits_bound(q@, views(items@).subrange(0, i as int), strip_lower_norm(cs@), skip_empty);
            assert(views(items@).subrange(0, i + 1).drop_last() =~= views(items@).subrange(0, i as int));
        }
        let stripped = remove_chars(items[i].as_str(), cs);
        let k = to_lowercase(stripped.as_str());
        let kv = chars_of(k.as_str());
        if (!skip_empty || kv.len() > 0) && contains_chars(q, &kv) {
            r = r + 1;
        }
        i = i + 1;
    }
    assert(views(items@).subrange(0, n as int) =~= views(items@));
    r
}

/// Whether some entry of `items` occurs in `s` (no normalization).
pub open spec fn any_contained(s: Seq<char>, items: Seq<Seq<char>>) -> bool {
    exists|i: int| 0 <= i < items.len() && contains_seq(s, #[trigger] items[i])
}

/// Whether some entry of `items` occurs in `s`.
pub fn any_contained_exec(s: &str, items: &Vec<String>) -> (r: bool)
    ensures
        r == any_contained(s@, views(items@)),
{
    let sv = chars_of(s);
    let n = items.len();
    let mut i: usize = 0;
    while i < n
        invariant
            n == items@.len(),
            sv@ == s@,
            i <= n,
            forall|k: int| 0 <= k < i ==> !contains_seq(s@, #[trigger] views(items@)[k]),
        decreases n - i,
    {
        let pv = chars_of(items[i].as_str());
        if contains_chars(&sv, &pv) {
            assert(contains_seq(s@, views(items@)[i as int]));
            return true;
        }
        i = i + 1;
    }
    false
}

/// The view of an optional string.
pub open spec fn opt_view(o: Option<String>) -> Option<Seq<char>> {
    match o {
        Some(s) => Some(s@),
        None => None,
    }
}

/// A copy of a vector of strings.
pub fn clone_strings(v: &Vec<String>) -> (r: Vec<String>)
    ensures
        views(r@) == views(v@),
{
    let r = v.clone();
    assert(r@ =~= v@);
    r
}

pub fn clone_opt_string(o: &Option<String>) -> (r: Option<String>)
    ensures
        opt_view(r) == opt_view(*o),
{
    match o {
        Some(s) => Some(s.clone()),
        None => None,
    }
}

/// `str::trim_start_matches` with a string pattern: every leading copy of
/// `p` removed (nothing is removed for an empty pattern).
pub open spec fn trim_start_matches_seq(s: Seq<char>, p: Seq<char>) -> Seq<char>
    decreases s.len(),
{
    if p.len() > 0 && starts_with_seq(s, p) {
        trim_start_matches_seq(s.skip(p.len() as int), p)
    } else {
        s
    }
}

/// `str::trim_start_matches` with a string pattern.
pub fn trim_start_matches(s: &str, p: &str) -> (r: String)
    ensures
        r@ == trim_start_matches_seq(s@, p@),
{
    let v = chars_of(s);
    let pv = chars_of(p);
    let n = v.len();
    let m = pv.len();
    let mut i: usize = 0;
    assert(s@.skip(0) =~= s@);
    if m > 0 {
        while i <= n && m <= n - i && occurs_at_vec(&v, &pv, i)
            invariant
                n == v@.len(),
                m == pv@.len(),
                m > 0,
                v@ == s@,
                pv@ == p@,
                i <= n,
                trim_start_matches_seq(s@, p@) == trim_start_matches_seq(s@.skip(i as int), p@),
            decreases n - i,
        {
            assert(s@.skip(i as int).subrange(0, m as int) =~= s@.subrange(i as int, i + m));
            assert(s@.skip(i as int).skip(m as int) =~= s@.skip(i + m));
            i = i + m;
        }
        proof {
            if m <= n - i {
                assert(s@.skip(i as int).subrange(0, m as int) =~= s@.subrange(i as int, i + m));
            }
        }
    }
    assert(s@.skip(i as int) =~= s@.subrange(i as int, n as int));
    assert(s@.skip(0) =~= s@);
    string_from_range(&v, i, n)
}

} // verus!
