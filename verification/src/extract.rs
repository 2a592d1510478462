//! Recovery of a JSON payload from the free-form text a transcription
//! backend returns.
//!
//! Extraction tries, in order: a fenced block tagged as JSON, any fenced
//! block, the region from the first opening brace to its balanced closing
//! brace, and finally the whole text with stray fence markers trimmed away.
//! A separate repair pass fixes the two most common syntax slips in such
//! responses: trailing commas before a closing bracket, and curly quotes.

use vstd::prelude::*;

use crate::text::chars_of;
use crate::text::find_char;
use crate::text::find_char_idx;
use crate::text::find_sub;
use crate::text::find_sub_idx;
use crate::text::is_ws;
use crate::text::is_ws_char;
use crate::text::lemma_find_char_idx;
use crate::text::lemma_find_sub_idx;
use crate::text::lemma_rfind_sub_idx;
use crate::text::match_at;
use crate::text::rfind_sub;
use crate::text::rfind_sub_idx;
use crate::text::string_from_chars;
use crate::text::subvec;
use crate::text::trimmed;
use crate::text::trimmed_chars;

verus! {

/// The fence marker that opens a JSON-tagged code block.
pub open spec fn json_fence() -> Seq<char> {
    "```json"@
}

/// The plain fence marker.
pub open spec fn plain_fence() -> Seq<char> {
    "```"@
}

/// Index of the brace that closes the brace opened at position `i` (with
/// `depth` braces already open before `i`), or `-1`.  Braces are counted
/// regardless of context, exactly as the extractor scans them.
pub open spec fn brace_close_idx(s: Seq<char>, i: int, depth: int) -> int
    decreases s.len() - i,
{
    if i < 0 || i >= s.len() {
        -1
    } else if s[i] == '{' {
        brace_close_idx(s, i + 1, depth + 1)
    } else if s[i] == '}' {
        if depth == 1 {
            i
        } else {
            brace_close_idx(s, i + 1, depth - 1)
        }
    } else {
        brace_close_idx(s, i + 1, depth)
    }
}

/// A found closing brace lies within the text, at or after the scan start.
pub proof fn lemma_brace_close_range(s: Seq<char>, i: int, depth: int)
    ensures
        brace_close_idx(s, i, depth) >= 0 ==> i <= brace_close_idx(s, i, depth) < s.len(),
    decreases s.len() - i,
{
    if 0 <= i && i < s.len() {
        lemma_brace_close_range(s, i + 1, depth + 1);
        lemma_brace_close_range(s, i + 1, depth - 1);
        lemma_brace_close_range(s, i + 1, depth);
    }
}

/// `s` with every leading repetition of `pat` removed.
pub open spec fn strip_prefix_all(s: Seq<char>, pat: Seq<char>) -> Seq<char>
    decreases s.len(),
{
    if pat.len() > 0 && s.len() >= pat.len() && s.take(pat.len() as int) == pat {
        strip_prefix_all(s.skip(pat.len() as int), pat)
    } else {
        s
    }
}

/// `s` with every trailing repetition of `pat` removed.
pub open spec fn strip_suffix_all(s: Seq<char>, pat: Seq<char>) -> Seq<char>
    decreases s.len(),
{
    if pat.len() > 0 && s.len() >= pat.len() && s.skip(s.len() - pat.len()) == pat {
        strip_suffix_all(s.take(s.len() - pat.len()), pat)
    } else {
        s
    }
}

/// The payload that extraction recovers from backend text `s`.
pub open spec fn extract_json_spec(s: Seq<char>) -> Seq<char> {
    let fj = find_sub_idx(s, json_fence());
    let jlen = json_fence().len() as int;
    if fj >= 0 && rfind_sub_idx(s.skip(fj), plain_fence()) > jlen {
        let e = rfind_sub_idx(s.skip(fj), plain_fence());
        trimmed(s.subrange(fj + jlen, fj + e))
    } else {
        let f1 = find_sub_idx(s, plain_fence());
        let plen = plain_fence().len() as int;
        if f1 >= 0 && find_sub_idx(s.skip(f1 + plen), plain_fence()) >= 0 {
            let e2 = find_sub_idx(s.skip(f1 + plen), plain_fence());
            trimmed(s.subrange(f1 + plen, f1 + plen + e2))
        } else {
            let b = find_char_idx(s, '{');
            if b >= 0 && brace_close_idx(s, b, 0) >= 0 {
                s.subrange(b, brace_close_idx(s, b, 0) + 1)
            } else {
                strip_suffix_all(
                    strip_prefix_all(strip_prefix_all(trimmed(s), json_fence()), plain_fence()),
                    plain_fence(),
                )
            }
        }
    }
}

/// Scan for the brace that closes the brace opened at `b`.
fn brace_close(s: &Vec<char>, b: usize) -> (r: Option<usize>)
    requires
        b < s@.len(),
        s@[b as int] == '{',
    ensures
        match r {
            Some(i) => brace_close_idx(s@, b as int, 0) == i as int,
            None => brace_close_idx(s@, b as int, 0) < 0,
        },
{
    let n: usize = s.len();
    let mut i: usize = b;
    let mut depth: usize = 0;
    while i < n
        invariant
            b <= i <= n,
            n == s@.len(),
            b < s@.len(),
            s@[b as int] == '{',
            depth <= i - b,
            i == b ==> depth == 0,
            i > b ==> depth >= 1,
            brace_close_idx(s@, b as int, 0) == brace_close_idx(s@, i as int, depth as int),
        decreases n - i,
    {
        let c: char = s[i];
        if c == '{' {
            depth = depth + 1;
        } else if c == '}' {
            if depth == 1 {
                return Some(i);
            }
            depth = depth - 1;
        }
        i = i + 1;
    }
    None
}

/// `s` (already trimmed) with all leading and trailing fence markers
/// stripped, as index bounds into `s`.
fn strip_fence_bounds(s: &Vec<char>) -> (r: (usize, usize))
    ensures
        r.0 <= r.1 <= s@.len(),
        s@.subrange(r.0 as int, r.1 as int) == strip_suffix_all(
            strip_prefix_all(strip_prefix_all(s@, json_fence()), plain_fence()),
            plain_fence(),
        ),
{
    let jf: Vec<char> = chars_of("```json");
    let pf: Vec<char> = chars_of("```");
    let n: usize = s.len();
    let jlen: usize = jf.len();
    let plen: usize = pf.len();
    let mut lo: usize = 0;
    proof {
        assert(s@.skip(0) =~= s@);
    }
    while jlen <= n - lo && eq_prefix_at(s, &jf, lo)
        invariant
            lo <= n,
            n == s@.len(),
            jlen == jf@.len(),
            jf@ == json_fence(),
            strip_prefix_all(s@.skip(lo as int), json_fence()) == strip_prefix_all(
                s@,
                json_fence(),
            ),
        decreases n - lo,
    {
        proof {
            assert(s@.skip(lo as int).take(jlen as int) =~= s@.subrange(
                lo as int,
                lo + jlen as int,
            ));
            assert(s@.skip(lo as int).skip(jlen as int) =~= s@.skip(lo + jlen as int));
            assert(jlen > 0) by {
                reveal_strlit("```json");
            }
        }
        lo = lo + jlen;
    }
    proof {
        assert(strip_prefix_all(s@.skip(lo as int), json_fence()) == s@.skip(lo as int)) by {
            if json_fence().len() > 0 && s@.skip(lo as int).len() >= json_fence().len() && s@.skip(
                lo as int,
            ).take(json_fence().len() as int) == json_fence() {
                assert(s@.skip(lo as int).take(jlen as int) =~= s@.subrange(
                    lo as int,
                    lo + jlen as int,
                ));
                assert(match_at(s@, jf@, lo as int));
            }
        }
    }
    let ghost s1: Seq<char> = s@.skip(lo as int);
    let lo1: usize = lo;
    while plen <= n - lo && eq_prefix_at(s, &pf, lo)
        invariant
            lo1 <= lo <= n,
            n == s@.len(),
            plen == pf@.len(),
            pf@ == plain_fence(),
            s1 == s@.skip(lo1 as int),
            strip_prefix_all(s@.skip(lo as int), plain_fence()) == strip_prefix_all(
                s1,
                plain_fence(),
            ),
        decreases n - lo,
    {
        proof {
            assert(s@.skip(lo as int).take(plen as int) =~= s@.subrange(
                lo as int,
                lo + plen as int,
            ));
            assert(s@.skip(lo as int).skip(plen as int) =~= s@.skip(lo + plen as int));
            assert(plen > 0) by {
                reveal_strlit("```");
            }
        }
        lo = lo + plen;
    }
    proof {
        assert(strip_prefix_all(s@.skip(lo as int), plain_fence()) == s@.skip(lo as int)) by {
            if plain_fence().len() > 0 && s@.skip(lo as int).len() >= plain_fence().len() && s@.skip(
                lo as int,
            ).take(plain_fence().len() as int) == plain_fence() {
                assert(s@.skip(lo as int).take(plen as int) =~= s@.subrange(
                    lo as int,
                    lo + plen as int,
                ));
                assert(match_at(s@, pf@, lo as int));
            }
        }
    }
    let ghost s2: Seq<char> = s@.skip(lo as int);
    let lo2: usize = lo;
    let mut hi: usize = n;
    proof {
        assert(s2.take(n - lo2 as int) =~= s2);
    }
    while hi - lo >= plen && eq_prefix_at(s, &pf, hi - plen)
        invariant
            lo2 <= hi <= n,
            lo == lo2,
            n == s@.len(),
            plen == pf@.len(),
            pf@ == plain_fence(),
            s2 == s@.skip(lo2 as int),
            strip_suffix_all(s2.take(hi - lo2 as int), plain_fence()) == strip_suffix_all(
                s2,
                plain_fence(),
            ),
        decreases hi,
    {
        proof {
            let m: int = hi - lo2 as int;
            assert(s2.take(m).skip(m - plen) =~= s@.subrange(hi - plen as int, hi as int));
            assert(s2.take(m).take(m - plen) =~= s2.take(m - plen));
            assert(plen > 0) by {
                reveal_strlit("```");
            }
        }
        hi = hi - plen;
    }
    proof {
        let m: int = hi - lo2 as int;
        assert(strip_suffix_all(s2.take(m), plain_fence()) == s2.take(m)) by {
            if plain_fence().len() > 0 && s2.take(m).len() >= plain_fence().len() && s2.take(
                m,
            ).skip(s2.take(m).len() - plain_fence().len()) == plain_fence() {
                assert(s2.take(m).skip(m - plen) =~= s@.subrange(hi - plen as int, hi as int));
                assert(match_at(s@, pf@, hi - plen as int));
            }
        }
        assert(s2.take(m) =~= s@.subrange(lo2 as int, hi as int));
    }
    (lo, hi)
}

/// Whether `pat` occurs in `s` starting at `i` (bounds-checked variant of
/// the matching test, usable in loop conditions).
fn eq_prefix_at(s: &Vec<char>, pat: &Vec<char>, i: usize) -> (r: bool)
    requires
        i + pat@.len() <= s@.len(),
    ensures
        r == match_at(s@, pat@, i as int),
{
    crate::text::eq_at(s, pat, i)
}

/// Extract the JSON payload from raw backend text.
///
/// Tries a JSON-tagged fenced block, then any fenced block, then the region
/// between the first `{` and its balanced `}`, and falls back to the whole
/// text with surrounding whitespace and stray fence markers removed.
pub fn extract_json(content: &str) -> (r: String)
    ensures
        r@ == extract_json_spec(content@),
{
    let cs: Vec<char> = chars_of(content);
    let n: usize = cs.len();
    let jf: Vec<char> = chars_of("```json");
    let pf: Vec<char> = chars_of("```");
    let jlen: usize = jf.len();
    let plen: usize = pf.len();

    // 1. a fenced block explicitly tagged as JSON
    if let Some(fj) = find_sub(&cs, &jf) {
        proof {
            lemma_find_sub_idx(cs@, jf@);
        }
        let tail: Vec<char> = subvec(&cs, fj, n);
        proof {
            assert(tail@ =~= cs@.skip(fj as int));
        }
        if let Some(e) = rfind_sub(&tail, &pf) {
            proof {
                lemma_rfind_sub_idx(tail@, pf@);
            }
            if e > jlen {
                let piece: Vec<char> = subvec(&cs, fj + jlen, fj + e);
                proof {
                    assert(piece@ =~= cs@.subrange(fj + jlen as int, fj + e as int));
                }
                let t: Vec<char> = trimmed_chars(&piece);
                return string_from_chars(&t);
            }
        }
    }

    // 2. any fenced block
    if let Some(f1) = find_sub(&cs, &pf) {
        proof {
            lemma_find_sub_idx(cs@, pf@);
        }
        let tail: Vec<char> = subvec(&cs, f1 + plen, n);
        proof {
            assert(tail@ =~= cs@.skip(f1 + plen as int));
        }
        if let Some(e2) = find_sub(&tail, &pf) {
            proof {
                lemma_find_sub_idx(tail@, pf@);
            }
            let piece: Vec<char> = subvec(&cs, f1 + plen, f1 + plen + e2);
            proof {
                assert(piece@ =~= cs@.subrange(f1 + plen as int, f1 + plen + e2 as int));
            }
            let t: Vec<char> = trimmed_chars(&piece);
            return string_from_chars(&t);
        }
    }

    // 3. first `{` to its balanced `}`
    if let Some(b) = find_char(&cs, '{') {
        proof {
            lemma_find_char_idx(cs@, '{');
        }
        if let Some(e) = brace_close(&cs, b) {
            proof {
                lemma_brace_close_range(cs@, b as int, 0);
            }
            let piece: Vec<char> = subvec(&cs, b, e + 1);
            return string_from_chars(&piece);
        }
    }

    // 4. the whole text, trimmed, with stray fence markers removed
    let t: Vec<char> = trimmed_chars(&cs);
    let b: (usize, usize) = strip_fence_bounds(&t);
    let piece: Vec<char> = subvec(&t, b.0, b.1);
    string_from_chars(&piece)
}

/// Position of the first non-whitespace character at or after `i`.
pub open spec fn skip_ws_idx(s: Seq<char>, i: int) -> int
    decreases s.len() - i,
{
    if i < 0 || i >= s.len() {
        s.len() as int
    } else if is_ws(s[i]) {
        skip_ws_idx(s, i + 1)
    } else {
        i
    }
}

/// The skipped-to position lies between `i` and the end of the text.
pub proof fn lemma_skip_ws_bounds(s: Seq<char>, i: int)
    requires
        0 <= i <= s.len(),
    ensures
        i <= skip_ws_idx(s, i) <= s.len(),
    decreases s.len() - i,
{
    if i < s.len() && is_ws(s[i]) {
        lemma_skip_ws_bounds(s, i + 1);
    }
}

/// One left-to-right pass that removes every comma standing (up to
/// whitespace) before the closing bracket `close`, resuming after each
/// removal past the bracket.
pub open spec fn strip_commas_from(s: Seq<char>, i: int, close: char) -> Seq<char>
    decreases s.len() - i,
    when 0 <= i
    via strip_commas_from_decreases
{
    if i >= s.len() {
        Seq::empty()
    } else if s[i] == ',' && {
        let k = skip_ws_idx(s, i + 1);
        k < s.len() && s[k] == close
    } {
        let k = skip_ws_idx(s, i + 1);
        s.subrange(i + 1, k + 1) + strip_commas_from(s, k + 1, close)
    } else {
        s.subrange(i, i + 1) + strip_commas_from(s, i + 1, close)
    }
}

#[via_fn]
proof fn strip_commas_from_decreases(s: Seq<char>, i: int, close: char) {
    if 0 <= i && i < s.len() {
        lemma_skip_ws_bounds(s, i + 1);
    }
}

/// The comma-stripping pass over the whole text.
pub open spec fn strip_commas_spec(s: Seq<char>, close: char) -> Seq<char> {
    strip_commas_from(s, 0, close)
}

/// Curly double quotes mapped to straight quotes; everything else kept.
pub open spec fn normalize_quote(c: char) -> char {
    if c == '\u{201c}' || c == '\u{201d}' {
        '"'
    } else {
        c
    }
}

/// The quote-normalisation pass.
pub open spec fn normalize_quotes_spec(s: Seq<char>) -> Seq<char> {
    s.map(|i: int, c: char| normalize_quote(c))
}

/// What the repair pass produces: trailing commas before `}` and `]`
/// removed, curly quotes straightened.
pub open spec fn repair_json_spec(s: Seq<char>) -> Seq<char> {
    normalize_quotes_spec(strip_commas_spec(strip_commas_spec(s, '}'), ']'))
}

/// First non-whitespace position at or after `from`.
fn skip_ws(s: &Vec<char>, from: usize) -> (r: usize)
    requires
        from <= s@.len(),
    ensures
        r as int == skip_ws_idx(s@, from as int),
        from <= r <= s@.len(),
{
    proof {
        lemma_skip_ws_bounds(s@, from as int);
    }
    let n: usize = s.len();
    let mut k: usize = from;
    while k < n && is_ws_char(s[k])
        invariant
            from <= k <= n,
            n == s@.len(),
            skip_ws_idx(s@, from as int) == skip_ws_idx(s@, k as int),
        decreases n - k,
    {
        k = k + 1;
    }
    k
}

/// Remove every comma that stands (up to whitespace) directly before the
/// closing bracket `close`.
fn strip_commas(s: &Vec<char>, close: char) -> (r: Vec<char>)
    ensures
        r@ == strip_commas_spec(s@, close),
{
    let n: usize = s.len();
    let mut out: Vec<char> = Vec::new();
    let mut i: usize = 0;
    while i < n
        invariant
            i <= n,
            n == s@.len(),
            out@ + strip_commas_from(s@, i as int, close) == strip_commas_from(s@, 0, close),
        decreases n - i,
    {
        let c: char = s[i];
        if c == ',' {
            let k: usize = skip_ws(s, i + 1);
            if k < n && s[k] == close {
                let mut piece: Vec<char> = subvec(s, i + 1, k + 1);
                proof {
                    assert(piece@ =~= s@.subrange(i + 1, k + 1 as int));
                }
                out.append(&mut piece);
                i = k + 1;
                continue ;
            }
        }
        proof {
            assert(s@.subrange(i as int, i + 1) =~= seq![s@[i as int]]);
        }
        out.push(c);
        i = i + 1;
    }
    proof {
        assert(strip_commas_from(s@, n as int, close) =~= Seq::<char>::empty());
        assert(out@ =~= out@ + strip_commas_from(s@, n as int, close));
    }
    out
}

/// Map curly double quotes to straight quotes.
fn normalize_quotes(s: &Vec<char>) -> (r: Vec<char>)
    ensures
        r@ == normalize_quotes_spec(s@),
{
    let n: usize = s.len();
    let mut out: Vec<char> = Vec::new();
    let mut i: usize = 0;
    while i < n
        invariant
            i <= n,
            n == s@.len(),
            out@.len() == i,
            forall|k: int| 0 <= k < i ==> out@[k] == normalize_quote(s@[k]),
        decreases n - i,
    {
        let c: char = s[i];
        if c == '\u{201c}' || c == '\u{201d}' {
            out.push('"');
        } else {
            out.push(c);
        }
        i = i + 1;
    }
    proof {
        assert(out@ =~= normalize_quotes_spec(s@));
    }
    out
}

/// Best-effort repair of the JSON slips common in model output: trailing
/// commas before `}` or `]` are removed and curly double quotes become
/// straight quotes.
pub fn repair_json(json_str: &str) -> (r: String)
    ensures
        r@ == repair_json_spec(json_str@),
{
    let cs: Vec<char> = chars_of(json_str);
    let a: Vec<char> = strip_commas(&cs, '}');
    let b: Vec<char> = strip_commas(&a, ']');
    let c: Vec<char> = normalize_quotes(&b);
    string_from_chars(&c)
}

} // verus!
