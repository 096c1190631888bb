//! The computations behind the command line: finding a URL in a query,
//! reading URL lists, choosing extensions by keyword, and the arguments of
//! the helper scripts.

use vstd::prelude::*;
use vstd::string::StringExecFns;
use crate::extension::{manifest_views, ExtensionManifest, ExtensionManifestView};
use crate::text::{
    chars_of, contains_seq, contains_str, lemma_skip_back_while_bounds, lines, push_char, skip_back_while, skip_while,
    split_lines, split_whitespace, split_ws, starts_with_seq, starts_with_str, string_from_range,
    trim, trim_by, trim_ws, views,
};

verus! {

/// The quote characters stripped around a URL.
pub open spec fn is_quote(c: char) -> bool {
    c == '<' || c == '>' || c == '"' || c == '\''
}

pub open spec fn quote_pred() -> spec_fn(char) -> bool {
    |c: char| is_quote(c)
}

/// A word that starts a web address.
pub open spec fn is_url_word(w: Seq<char>) -> bool {
    starts_with_seq(w, "http://"@) || starts_with_seq(w, "https://"@)
}

/// `s` with quote characters removed from both ends.
pub fn trim_quotes(s: &str) -> (r: String)
    ensures
        r@ == trim_by(s@, quote_pred()),
{
    let v = chars_of(s);
    let n = v.len();
    let ghost p = quote_pred();
    let mut a: usize = 0;
    while a < n && (v[a] == '<' || v[a] == '>' || v[a] == '"' || v[a] == '\'')
        invariant
            n == v@.len(),
            v@ == s@,
            p == quote_pred(),
            a <= n,
            skip_while(s@, p, 0) == skip_while(s@, p, a as int),
        decreases n - a,
    {
        assert(p(s@[a as int]));
        a = a + 1;
    }
    let mut b: usize = n;
    while b > a && (v[b - 1] == '<' || v[b - 1] == '>' || v[b - 1] == '"' || v[b - 1] == '\'')
        invariant
            n == v@.len(),
            v@ == s@,
            p == quote_pred(),
            a <= b <= n,
            a == skip_while(s@, p, 0),
            skip_back_while(s@, p, a as int, n as int) == skip_back_while(s@, p, a as int, b as int),
        decreases b - a,
    {
        assert(p(s@[b - 1]));
        b = b - 1;
    }
    string_from_range(&v, a, b)
}

/// Finds the URL in a natural-language query: the first whitespace-separated
/// word that starts with "http://" or "https://", with quote characters
/// (`< > " '`) removed from its ends; `None` when no word does.
pub fn extract_url(query: &str) -> (r: Option<String>)
    ensures
        match r {
            Some(u) => exists|i: int| {
                &&& 0 <= i < split_ws(query@).len()
                &&& is_url_word(split_ws(query@)[i])
                &&& forall|j: int| 0 <= j < i ==> !is_url_word(#[trigger] split_ws(query@)[j])
                &&& u@ == trim_by(split_ws(query@)[i], quote_pred())
            },
            None => forall|j: int| 0 <= j < split_ws(query@).len() ==> !is_url_word(#[trigger] split_ws(query@)[j]),
        },
{
    let words = split_whitespace(query);
    let ghost ws = split_ws(query@);
    let mut i: usize = 0;
    while i < words.len()
        invariant
            views(words@) == ws,
            ws == split_ws(query@),
            i <= words@.len(),
            forall|j: int| 0 <= j < i ==> !is_url_word(#[trigger] ws[j]),
        decreases words@.len() - i,
    {
        let w = words[i].as_str();
        assert(ws[i as int] == w@);
        if starts_with_str(w, "http://") || starts_with_str(w, "https://") {
            return Some(trim_quotes(w));
        }
        i = i + 1;
    }
    None
}

/// Removing quote characters from the ends of a word that starts with
/// "http://" or "https://" leaves a word that still does: what the query
/// parser extracts is always a web address.
pub proof fn law_extracted_is_url(w: Seq<char>)
    requires
        is_url_word(w),
    ensures
        is_url_word(trim_by(w, quote_pred())),
{
    reveal_strlit("http://");
    reveal_strlit("https://");
    let p = quote_pred();
    let n = w.len() as int;
    let l: int = if starts_with_seq(w, "http://"@) { 7 } else { 8 };
    assert(w[0] == 'h') by {
        if l == 7 {
            assert(w.subrange(0, 7)[0] == w[0]);
        } else {
            assert(w.subrange(0, 8)[0] == w[0]);
        }
    }
    assert(w[l - 1] == '/') by {
        if l == 7 {
            assert(w.subrange(0, 7)[6] == w[6]);
        } else {
            assert(w.subrange(0, 8)[7] == w[7]);
        }
    }
    assert(skip_while(w, p, 0) == 0);
    lemma_skip_back_while_bounds(w, p, 0, n);
    let b = skip_back_while(w, p, 0, n);
    assert(b >= l) by {
        if b < l {
            assert(p(w[l - 1]));
        }
    }
    let t = trim_by(w, p);
    assert(t == w.subrange(0, b));
    if l == 7 {
        assert(t.subrange(0, 7) =~= w.subrange(0, 7));
        assert(starts_with_seq(t, "http://"@));
    } else {
        assert(t.subrange(0, 8) =~= w.subrange(0, 8));
        assert(starts_with_seq(t, "https://"@));
    }
}

/// A line of a URL list names a URL: not empty once trimmed, and not a
/// comment (starting with '#').
pub open spec fn is_url_line(t: Seq<char>) -> bool {
    t.len() > 0 && t[0] != '#'
}

/// The URLs of a URL list: its lines, trimmed, without empty lines and
/// comments.
pub open spec fn url_list(content: Seq<char>) -> Seq<Seq<char>> {
    split_lines(content).map_values(|l: Seq<char>| trim_ws(l)).filter(|t: Seq<char>| is_url_line(t))
}

/// Every entry of a URL list is a URL line: not empty, and not a comment.
pub proof fn law_url_list_entries(content: Seq<char>)
    ensures
        forall|i: int| 0 <= i < url_list(content).len() ==> is_url_line(#[trigger] url_list(content)[i]),
{
    let trimmed = split_lines(content).map_values(|l: Seq<char>| trim_ws(l));
    let keep = |t: Seq<char>| is_url_line(t);
    assert forall|i: int| 0 <= i < url_list(content).len() implies is_url_line(#[trigger] url_list(content)[i]) by {
        trimmed.lemma_filter_pred(keep, i);
    }
}

/// Law: a URL list holds exactly the URL lines of the text: each line that,
/// trimmed, is neither empty nor a comment is in the list, trimmed; each
/// entry of the list is a line of the text, trimmed; and there are no more
/// entries than lines.
pub proof fn law_url_list_complete(content: Seq<char>)
    ensures
        forall|i: int| 0 <= i < split_lines(content).len() && is_url_line(trim_ws(#[trigger] split_lines(content)[i]))
            ==> url_list(content).contains(trim_ws(split_lines(content)[i])),
        forall|j: int| 0 <= j < url_list(content).len()
            ==> split_lines(content).map_values(|l: Seq<char>| trim_ws(l)).contains(#[trigger] url_list(content)[j]),
        url_list(content).len() <= split_lines(content).len(),
{
    let ls = split_lines(content);
    let trimmed = ls.map_values(|l: Seq<char>| trim_ws(l));
    let keep = |t: Seq<char>| is_url_line(t);
    assert forall|i: int| 0 <= i < ls.len() && is_url_line(trim_ws(#[trigger] ls[i]))
        implies url_list(content).contains(trim_ws(ls[i])) by {
        assert(trimmed[i] == trim_ws(ls[i]));
        trimmed.lemma_filter_contains(keep, i);
    }
    assert forall|j: int| 0 <= j < url_list(content).len() implies trimmed.contains(#[trigger] url_list(content)[j]) by {
        let e = url_list(content)[j];
        assert(trimmed.filter(keep).contains(e));
        trimmed.lemma_filter_contains_rev(keep, e);
    }
    trimmed.lemma_filter_len(keep);
}

/// The URLs of a URL list.
pub fn parse_url_list(content: &str) -> (r: Vec<String>)
    ensures
        views(r@) == url_list(content@),
{
    let ls = lines(content);
    let ghost trimmed = split_lines(content@).map_values(|l: Seq<char>| trim_ws(l));
    let ghost keep = |t: Seq<char>| is_url_line(t);
    let mut r: Vec<String> = Vec::new();
    let mut i: usize = 0;
    assert(trimmed.subrange(0, 0).filter(keep) =~= Seq::<Seq<char>>::empty()) by {
        reveal(Seq::filter);
    }
    while i < ls.len()
        invariant
            views(ls@) == split_lines(content@),
            trimmed == split_lines(content@).map_values(|l: Seq<char>| trim_ws(l)),
            keep == (|t: Seq<char>| is_url_line(t)),
            i <= ls@.len(),
            views(r@) == trimmed.subrange(0, i as int).filter(keep),
        decreases ls@.len() - i,
    {
        proof {
            reveal(Seq::filter);
            assert(trimmed.subrange(0, i + 1).drop_last() =~= trimmed.subrange(0, i as int));
        }
        let t = trim(ls[i].as_str());
        assert(trimmed[i as int] == t@);
        let n = t.unicode_len();
        let is_url = n > 0 && t.as_str().get_char(0) != '#';
        if is_url {
            let ghost before = r@;
            r.push(t);
            assert(views(r@) =~= views(before).push(trimmed[i as int]));
        }
        i = i + 1;
    }
    assert(trimmed.subrange(0, i as int) =~= trimmed);
    r
}

/// The URLs of a batch: those of the URL list `file_content`, if any, then
/// those given directly, if any.
pub fn collect_batch_urls(file_content: Option<&str>, urls: Option<Vec<String>>) -> (r: Vec<String>)
    ensures
        views(r@) == (match file_content {
            Some(c) => url_list(c@),
            None => Seq::empty(),
        }) + (match urls {
            Some(u) => views(u@),
            None => Seq::empty(),
        }),
{
    let mut all = match file_content {
        Some(c) => parse_url_list(c),
        None => Vec::new(),
    };
    let ghost first = views(all@);
    match urls {
        Some(u) => {
            let mut u = u;
            let ghost second = views(u@);
            all.append(&mut u);
            assert(views(all@) =~= first + second);
        },
        None => {
            assert(views(all@) =~= first + Seq::<Seq<char>>::empty());
        },
    }
    all
}

/// The decimal digit `d`.
pub open spec fn digit_char(d: nat) -> char {
    if d == 0 { '0' } else if d == 1 { '1' } else if d == 2 { '2' } else if d == 3 { '3' } else if d == 4 { '4' }
    else if d == 5 { '5' } else if d == 6 { '6' } else if d == 7 { '7' } else if d == 8 { '8' } else { '9' }
}

/// The decimal representation of `n`.
pub open spec fn decimal(n: nat) -> Seq<char>
    decreases n,
{
    if n < 10 {
        seq![digit_char(n)]
    } else {
        decimal(n / 10).push(digit_char(n % 10))
    }
}

/// The number that a string of decimal digits denotes.
pub open spec fn digits_value(s: Seq<char>) -> int
    decreases s.len(),
{
    if s.len() == 0 {
        0
    } else {
        10 * digits_value(s.drop_last()) + (s.last() as int - '0' as int)
    }
}

/// Each digit character denotes its digit.
proof fn lemma_digit_value(d: nat)
    requires
        d < 10,
    ensures
        digit_char(d) as int - '0' as int == d,
        '0' <= digit_char(d) <= '9',
        digit_char(d) == '0' ==> d == 0,
{
}

/// Law: the decimal text of a number is made of the digits '0' to '9',
/// starts with '0' only for zero, and denotes the number.
pub proof fn law_decimal_denotes(n: nat)
    ensures
        forall|i: int| 0 <= i < decimal(n).len() ==> '0' <= #[trigger] decimal(n)[i] && decimal(n)[i] <= '9',
        decimal(n).len() > 0,
        decimal(n)[0] == '0' ==> n == 0,
        digits_value(decimal(n)) == n,
    decreases n,
{
    lemma_digit_value(n % 10);
    if n < 10 {
        assert(n % 10 == n);
        assert(decimal(n).drop_last() =~= Seq::<char>::empty());
        assert(decimal(n).last() == digit_char(n));
        assert(digits_value(decimal(n)) == 10 * digits_value(Seq::<char>::empty()) + (digit_char(n) as int - '0' as int));
    }
    if n >= 10 {
        vstd::arithmetic::div_mod::lemma_fundamental_div_mod(n as int, 10);
        law_decimal_denotes(n / 10);
        let d = decimal(n / 10);
        assert(decimal(n) == d.push(digit_char(n % 10)));
        assert(decimal(n).drop_last() =~= d);
        assert(decimal(n).last() == digit_char(n % 10));
        assert(digits_value(decimal(n)) == 10 * digits_value(d) + (digit_char(n % 10) as int - '0' as int));
        assert forall|i: int| 0 <= i < decimal(n).len() implies '0' <= #[trigger] decimal(n)[i] && decimal(n)[i] <= '9' by {
            if i < d.len() {
                assert(decimal(n)[i] == d[i]);
            }
        }
        assert(decimal(n)[0] == d[0]);
    }
}

fn digit(d: u64) -> (c: char)
    requires
        d < 10,
    ensures
        c == digit_char(d as nat),
{
    if d == 0 { '0' } else if d == 1 { '1' } else if d == 2 { '2' } else if d == 3 { '3' } else if d == 4 { '4' }
    else if d == 5 { '5' } else if d == 6 { '6' } else if d == 7 { '7' } else if d == 8 { '8' } else { '9' }
}

/// The decimal representation of `n` (`to_string` on an integer).
pub fn decimal_string(n: u64) -> (r: String)
    ensures
        r@ == decimal(n as nat),
    decreases n,
{
    if n < 10 {
        let mut s = String::new();
        push_char(&mut s, digit(n));
        assert(s@ =~= seq![digit_char(n as nat)]);
        s
    } else {
        let mut s = decimal_string(n / 10);
        push_char(&mut s, digit(n % 10));
        s
    }
}

fn strings_push(v: &mut Vec<String>, s: &str)
    ensures
        views(final(v)@) == views(old(v)@).push(s@),
{
    let ghost before = v@;
    v.push(String::from_str(s));
    assert(views(v@) =~= views(before).push(s@));
}

/// The arguments of the batch download script for `urls` with `concurrent`
/// workers.
pub open spec fn batch_args(urls: Seq<Seq<char>>, concurrent: nat) -> Seq<Seq<char>> {
    seq!["scripts/batch-download.py"@, "--urls"@] + urls + seq!["--workers"@, decimal(concurrent)]
}

/// The arguments of the batch download script.
pub fn batch_command_args(urls: &Vec<String>, concurrent: usize) -> (r: Vec<String>)
    ensures
        views(r@) == batch_args(views(urls@), concurrent as nat),
{
    let mut r: Vec<String> = Vec::new();
    strings_push(&mut r, "scripts/batch-download.py");
    strings_push(&mut r, "--urls");
    let mut i: usize = 0;
    let ghost head = seq!["scripts/batch-download.py"@, "--urls"@];
    assert(views(r@) =~= head);
    while i < urls.len()
        invariant
            i <= urls@.len(),
            views(r@) == head + views(urls@).subrange(0, i as int),
        decreases urls@.len() - i,
    {
        strings_push(&mut r, urls[i].as_str());
        i = i + 1;
        assert(views(r@) =~= head + views(urls@).subrange(0, i as int));
    }
    strings_push(&mut r, "--workers");
    let ghost before = r@;
    r.push(decimal_string(concurrent as u64));
    assert(views(r@) =~= views(before).push(decimal(concurrent as nat)));
    assert(views(urls@).subrange(0, i as int) =~= views(urls@));
    assert(views(r@) =~= batch_args(views(urls@), concurrent as nat));
    r
}

/// The arguments of the compression script: the video mode, input,
/// quality (CRF), speed preset, and the output when one is given.
pub open spec fn compress_args(input: Seq<char>, output: Option<Seq<char>>, crf: nat, preset: Seq<char>) -> Seq<Seq<char>> {
    seq!["src/extensions/compress/compressor.py"@, "video"@, "--input"@, input, "--crf"@, decimal(crf), "--preset"@, preset]
        + match output {
        Some(o) => seq!["--output"@, o],
        None => Seq::empty(),
    }
}

/// The arguments of the compression script.
pub fn compress_command_args(input: &str, output: Option<&str>, crf: u32, preset: &str) -> (r: Vec<String>)
    ensures
        views(r@) == compress_args(input@, match output {
            Some(o) => Some(o@),
            None => None,
        }, crf as nat, preset@),
{
    let mut r: Vec<String> = Vec::new();
    strings_push(&mut r, "src/extensions/compress/compressor.py");
    strings_push(&mut r, "video");
    strings_push(&mut r, "--input");
    strings_push(&mut r, input);
    strings_push(&mut r, "--crf");
    let ghost before = r@;
    r.push(decimal_string(crf as u64));
    assert(views(r@) =~= views(before).push(decimal(crf as nat)));
    strings_push(&mut r, "--preset");
    strings_push(&mut r, preset);
    match output {
        Some(o) => {
            strings_push(&mut r, "--output");
            strings_push(&mut r, o);
        },
        None => {},
    }
    assert(views(r@) =~= compress_args(input@, match output {
        Some(o) => Some(o@),
        None => None,
    }, crf as nat, preset@));
    r
}

/// The arguments of the live recording script.
pub open spec fn live_args(url: Seq<char>, output: Seq<char>) -> Seq<Seq<char>> {
    seq!["src/extensions/live/downloader.py"@, "record"@, "--url"@, url, "--output"@, output]
}

/// The arguments of the live recording script.
pub fn live_command_args(url: &str, output: &str) -> (r: Vec<String>)
    ensures
        views(r@) == live_args(url@, output@),
{
    let mut r: Vec<String> = Vec::new();
    strings_push(&mut r, "src/extensions/live/downloader.py");
    strings_push(&mut r, "record");
    strings_push(&mut r, "--url");
    strings_push(&mut r, url);
    strings_push(&mut r, "--output");
    strings_push(&mut r, output);
    assert(views(r@) =~= live_args(url@, output@));
    r
}

/// The line that lists an extension: "  - <name> v<version>", followed by
/// ": <description>" when `with_description`.
pub fn manifest_line(m: &ExtensionManifest, with_description: bool) -> (r: String)
    ensures
        r@ == "  - "@ + m.name@ + " v"@ + m.version@ + if with_description {
            ": "@ + m.description@
        } else {
            Seq::<char>::empty()
        },
{
    let mut s = String::from_str("  - ");
    s.append(m.name.as_str());
    s.append(" v");
    s.append(m.version.as_str());
    let ghost before = s@;
    if with_description {
        s.append(": ");
        s.append(m.description.as_str());
    } else {
        assert(before + Seq::<char>::empty() =~= before);
    }
    s
}

/// A manifest matches a search keyword when its description or its name
/// contains it.
pub open spec fn matches_keyword(m: ExtensionManifestView, keyword: Seq<char>) -> bool {
    contains_seq(m.description, keyword) || contains_seq(m.name, keyword)
}

/// The manifests that match `keyword`, in order.
pub fn search_manifests(manifests: &Vec<ExtensionManifest>, keyword: &str) -> (r: Vec<ExtensionManifest>)
    ensures
        manifest_views(r@) == manifest_views(manifests@).filter(|m: ExtensionManifestView| matches_keyword(m, keyword@)),
{
    let ghost ms = manifest_views(manifests@);
    let ghost f = |m: ExtensionManifestView| matches_keyword(m, keyword@);
    let mut r: Vec<ExtensionManifest> = Vec::new();
    assert(ms.subrange(0, 0).filter(f) =~= Seq::<ExtensionManifestView>::empty()) by {
        reveal(Seq::filter);
    }
    let mut i: usize = 0;
    while i < manifests.len()
        invariant
            ms == manifest_views(manifests@),
            i <= manifests@.len(),
            f == (|m: ExtensionManifestView| matches_keyword(m, keyword@)),
            manifest_views(r@) == ms.subrange(0, i as int).filter(f),
        decreases manifests@.len() - i,
    {
        proof {
            reveal(Seq::filter);
            assert(ms.subrange(0, i + 1).drop_last() =~= ms.subrange(0, i as int));
        }
        let m = &manifests[i];
        assert(m@ == ms[i as int]);
        if contains_str(m.description.as_str(), keyword) || contains_str(m.name.as_str(), keyword) {
            let ghost before = r@;
            r.push(m.clone());
            assert(manifest_views(r@) =~= manifest_views(before).push(ms[i as int]));
        }
        i = i + 1;
    }
    assert(ms.subrange(0, i as int) =~= ms);
    r
}

} // verus!
