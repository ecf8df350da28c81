//! Reading the play time of a Niri animation file: every `duration-ms <int>` that
//! stands outside comments, and the `slowdown <float>` multiplier.
use vstd::prelude::*;

use crate::text::{
    char_views, chars_of, extend_chars, find, find_chars, find_chars_from, find_from,
    first_token, first_token_from, lemma_find_from_bounds, lines, pattern2, split_lines, string_of,
};

verus! {

/// `/*`, the start of a block comment.
pub open spec fn block_open() -> Seq<char> {
    seq!['/', '*']
}

/// `*/`, the end of a block comment.
pub open spec fn block_close() -> Seq<char> {
    seq!['*', '/']
}

/// `//`, the start of a line comment.
pub open spec fn line_comment() -> Seq<char> {
    seq!['/', '/']
}

/// The keyword before an animation's length in milliseconds.
pub open spec fn duration_key() -> Seq<char> {
    seq!['d', 'u', 'r', 'a', 't', 'i', 'o', 'n', '-', 'm', 's']
}

/// The keyword (with its space) before the slow-down multiplier.
pub open spec fn slowdown_key() -> Seq<char> {
    seq!['s', 'l', 'o', 'w', 'd', 'o', 'w', 'n', ' ']
}

/// What is left of `line[pos..]` outside block comments, and whether a block comment
/// is still open at its end, given whether one is open at `pos`.
pub open spec fn strip_from(line: Seq<char>, pos: int, in_block: bool) -> (Seq<char>, bool)
    decreases line.len() - pos,
{
    if pos < 0 || pos >= line.len() {
        (seq![], in_block)
    } else if in_block {
        match find_from(line, block_close(), pos) {
            Some(e) => {
                proof {
                    lemma_find_from_bounds(line, block_close(), pos);
                }
                strip_from(line, e + 2, false)
            },
            None => (seq![], true),
        }
    } else {
        match find_from(line, block_open(), pos) {
            Some(st) => {
                proof {
                    lemma_find_from_bounds(line, block_open(), pos);
                }
                let rest = strip_from(line, st + 2, true);
                (line.subrange(pos, st) + rest.0, rest.1)
            },
            None => (line.subrange(pos, line.len() as int), false),
        }
    }
}

/// What is left of a line outside block comments, and whether a block comment is
/// still open after it.
pub open spec fn strip_block(line: Seq<char>, in_block: bool) -> (Seq<char>, bool) {
    strip_from(line, 0, in_block)
}

/// The code of a line: what is left outside block comments, cut at a `//` comment.
pub open spec fn code_of(raw: Seq<char>, in_block: bool) -> Seq<char> {
    let s = strip_block(raw, in_block).0;
    match find(s, line_comment()) {
        Some(p) => s.subrange(0, p),
        None => s,
    }
}

/// Whether a block comment is open before line `n` of `ls`.
pub open spec fn block_before(ls: Seq<Seq<char>>, n: int) -> bool
    decreases n,
{
    if n <= 0 {
        false
    } else {
        strip_block(ls[n - 1], block_before(ls, n - 1)).1
    }
}

/// The code of line `i` of `ls`.
pub open spec fn code_line(ls: Seq<Seq<char>>, i: int) -> Seq<char> {
    code_of(ls[i], block_before(ls, i))
}

/// The tokens that follow the occurrences of `key` in `code` at or after `i`, in
/// order (an occurrence followed by nothing but white space gives none).
pub open spec fn values_from(code: Seq<char>, key: Seq<char>, i: int) -> Seq<Seq<char>>
    decreases code.len() + 1 - i,
{
    if key.len() == 0 || i < 0 {
        seq![]
    } else {
        match find_from(code, key, i) {
            None => seq![],
            Some(p) => {
                proof {
                    lemma_find_from_bounds(code, key, i);
                }
                let rest = values_from(code, key, p + key.len());
                match first_token_from(code, p + key.len()) {
                    Some(t) => seq![t] + rest,
                    None => rest,
                }
            },
        }
    }
}

/// The tokens that follow every occurrence of `key` in `code`.
pub open spec fn values_after(code: Seq<char>, key: Seq<char>) -> Seq<Seq<char>> {
    values_from(code, key, 0)
}

/// Whether `c` is an ASCII decimal digit.
pub open spec fn is_digit(c: char) -> bool {
    '0' <= c <= '9'
}

/// The number that a string of decimal digits writes.
pub open spec fn digits_value(d: Seq<char>) -> int
    decreases d.len(),
{
    if d.len() == 0 {
        0
    } else {
        digits_value(d.drop_last()) * 10 + (d.last() as int - '0' as int)
    }
}

/// A token without one leading `+`.
pub open spec fn unsigned_digits(t: Seq<char>) -> Seq<char> {
    if t.len() > 0 && t[0] == '+' {
        t.drop_first()
    } else {
        t
    }
}

/// What `str::parse::<u64>` gives: an optional `+`, then at least one decimal digit
/// and nothing else, with a value that fits in 64 bits.
pub open spec fn parse_u64(t: Seq<char>) -> Option<u64> {
    let d = unsigned_digits(t);
    if d.len() > 0 && (forall|i: int| 0 <= i < d.len() ==> is_digit(#[trigger] d[i]))
        && digits_value(d) <= u64::MAX {
        Some(digits_value(d) as u64)
    } else {
        None
    }
}

/// The numbers among `tokens` (those that read as a `u64`), in order.
pub open spec fn u64_tokens(tokens: Seq<Seq<char>>) -> Seq<u64>
    decreases tokens.len(),
{
    if tokens.len() == 0 {
        seq![]
    } else {
        match parse_u64(tokens.last()) {
            Some(d) => u64_tokens(tokens.drop_last()).push(d),
            None => u64_tokens(tokens.drop_last()),
        }
    }
}

/// The durations that a line of code gives: every `duration-ms <u64>` on it.
pub open spec fn line_durations(code: Seq<char>) -> Seq<u64> {
    u64_tokens(values_after(code, duration_key()))
}

/// The first token after the first occurrence of `key` in `code` (none when that
/// occurrence is followed only by white space).
pub open spec fn value_after(code: Seq<char>, key: Seq<char>) -> Option<Seq<char>> {
    match find(code, key) {
        Some(p) => first_token_from(code, p + key.len()),
        None => None,
    }
}

/// The slow-down arguments that a line of code gives: the token after the first
/// `slowdown ` on it, if any.
pub open spec fn line_slowdowns(code: Seq<char>) -> Seq<Seq<char>> {
    match value_after(code, slowdown_key()) {
        Some(t) => seq![t],
        None => seq![],
    }
}

/// The durations that the first `n` lines of `ls` give, in order.
pub open spec fn durations_upto(ls: Seq<Seq<char>>, n: int) -> Seq<u64>
    decreases n,
{
    if n <= 0 {
        seq![]
    } else {
        durations_upto(ls, n - 1) + line_durations(code_line(ls, n - 1))
    }
}

/// The slow-down arguments that the first `n` lines of `ls` give, in order.
pub open spec fn slowdowns_upto(ls: Seq<Seq<char>>, n: int) -> Seq<Seq<char>>
    decreases n,
{
    if n <= 0 {
        seq![]
    } else {
        slowdowns_upto(ls, n - 1) + line_slowdowns(code_line(ls, n - 1))
    }
}

/// The largest element of `s`, if there is one.
pub open spec fn seq_max(s: Seq<u64>) -> Option<u64>
    decreases s.len(),
{
    if s.len() == 0 {
        None
    } else {
        match seq_max(s.drop_last()) {
            None => Some(s.last()),
            Some(m) => Some(
                if s.last() > m {
                    s.last()
                } else {
                    m
                },
            ),
        }
    }
}

/// Every duration that an animation source gives, in order of the lines.
pub open spec fn source_durations(content: Seq<char>) -> Seq<u64> {
    let ls = lines(content);
    durations_upto(ls, ls.len() as int)
}

/// The longest duration that an animation source gives.
pub open spec fn source_max_duration(content: Seq<char>) -> Option<u64> {
    seq_max(source_durations(content))
}

/// Every slow-down argument that an animation source gives, in order of the lines.
pub open spec fn source_slowdowns(content: Seq<char>) -> Seq<Seq<char>> {
    let ls = lines(content);
    slowdowns_upto(ls, ls.len() as int)
}

/// The views of a sequence of strings.
pub open spec fn string_views(v: Seq<String>) -> Seq<Seq<char>> {
    v.map_values(|x: String| x@)
}

/// What an animation file says of its play time.
pub struct DurationScan {
    /// The longest `duration-ms` value outside comments, if any.
    pub max_duration_ms: Option<u64>,
    /// The argument of the first `slowdown` on each line, outside comments, in
    /// order; the multiplier is the last of them that reads as a number.
    pub slowdowns: Vec<String>,
}

/// `line` without block comments, carrying `in_block` across lines.
pub fn strip_block_chars(line: &Vec<char>, in_block: &mut bool) -> (r: Vec<char>)
    ensures
        (r@, *final(in_block)) == strip_block(line@, *old(in_block)),
{
    let open = pattern2('/', '*');
    let close = pattern2('*', '/');
    let ghost b0 = *in_block;
    let mut b = *in_block;
    let mut out: Vec<char> = Vec::new();
    let mut pos: usize = 0;
    while pos < line.len()
        invariant
            pos <= line.len(),
            open@ == block_open(),
            close@ == block_close(),
            strip_from(line@, 0, b0).0 == out@ + strip_from(line@, pos as int, b).0,
            strip_from(line@, 0, b0).1 == strip_from(line@, pos as int, b).1,
        decreases line.len() - pos,
    {
        let ghost out0 = out@;
        if b {
            match find_chars_from(line, &close, pos) {
                Some(e) => {
                    proof {
                        lemma_find_from_bounds(line@, block_close(), pos as int);
                    }
                    pos = e + 2;
                    b = false;
                },
                None => {
                    assert(strip_from(line@, line.len() as int, true).0 =~= Seq::<char>::empty());
                    pos = line.len();
                },
            }
        } else {
            match find_chars_from(line, &open, pos) {
                Some(st) => {
                    proof {
                        lemma_find_from_bounds(line@, block_open(), pos as int);
                    }
                    let ghost rest = strip_from(line@, st + 2, true);
                    extend_chars(&mut out, line, pos, st);
                    assert(out0 + (line@.subrange(pos as int, st as int) + rest.0) =~= out@
                        + rest.0);
                    pos = st + 2;
                    b = true;
                },
                None => {
                    extend_chars(&mut out, line, pos, line.len());
                    assert(out0 + line@.subrange(pos as int, line.len() as int) =~= out@
                        + Seq::<char>::empty());
                    pos = line.len();
                },
            }
        }
    }
    assert(out@ + Seq::<char>::empty() =~= out@);
    *in_block = b;
    out
}

/// `line` with `/* ... */` sections removed; `in_block` says whether a block
/// comment is open before the line and, afterwards, whether one is open after it.
pub fn strip_block_comments(line: &str, in_block: &mut bool) -> (r: String)
    ensures
        (r@, *final(in_block)) == strip_block(line@, *old(in_block)),
{
    let chars = chars_of(line);
    let kept = strip_block_chars(&chars, in_block);
    string_of(&kept, 0, kept.len())
}

/// The code of a raw line: block comments removed, then cut at `//`.
fn code_of_line(raw: &Vec<char>, in_block: &mut bool, comment: &Vec<char>) -> (r: Vec<char>)
    requires
        comment@ == line_comment(),
    ensures
        r@ == code_of(raw@, *old(in_block)),
        *final(in_block) == strip_block(raw@, *old(in_block)).1,
{
    let mut s = strip_block_chars(raw, in_block);
    match find_chars(&s, comment) {
        Some(p) => {
            proof {
                lemma_find_from_bounds(s@, line_comment(), 0);
            }
            s.truncate(p);
            assert(s@ =~= strip_block(raw@, *old(in_block)).0.subrange(0, p as int));
        },
        None => {},
    }
    s
}

/// The tokens after every occurrence of `key` in `code`.
fn tokens_after(code: &Vec<char>, key: &Vec<char>) -> (r: Vec<Vec<char>>)
    requires
        key@.len() > 0,
    ensures
        char_views(r@) == values_after(code@, key@),
{
    let n = code.len();
    let mut out: Vec<Vec<char>> = Vec::new();
    let mut pos: usize = 0;
    loop
        invariant
            key@.len() > 0,
            n == code@.len(),
            pos <= n + 1,
            values_after(code@, key@) == char_views(out@) + values_from(code@, key@, pos as int),
        decreases n + 1 - pos,
    {
        match find_chars_from(code, key, pos) {
            None => {
                assert(values_from(code@, key@, pos as int) =~= Seq::<Seq<char>>::empty());
                assert(char_views(out@) + Seq::<Seq<char>>::empty() =~= char_views(out@));
                return out;
            },
            Some(p) => {
                proof {
                    lemma_find_from_bounds(code@, key@, pos as int);
                }
                let next = p + key.len();
                let ghost rest = values_from(code@, key@, next as int);
                let ghost before = char_views(out@);
                match first_token(code, next) {
                    Some(t) => {
                        out.push(t);
                        assert(char_views(out@) =~= before.push(t@));
                        assert(before + (seq![t@] + rest) =~= before.push(t@) + rest);
                    },
                    None => {},
                }
                pos = next;
            },
        }
    }
}

/// The first token after the first occurrence of `key` in `code`.
fn token_after(code: &Vec<char>, key: &Vec<char>) -> (r: Option<Vec<char>>)
    ensures
        match r {
            Some(t) => value_after(code@, key@) == Some(t@),
            None => value_after(code@, key@) is None,
        },
{
    let n = code.len();
    match find_chars(code, key) {
        Some(p) => {
            proof {
                lemma_find_from_bounds(code@, key@, 0);
                assert(find_from(code@, key@, 0) == Some(p as int));
            }
            first_token(code, p + key.len())
        },
        None => None,
    }
}

/// The numbers of a sequence of tokens with one more token.
proof fn lemma_u64_tokens_take(tokens: Seq<Seq<char>>, k: int)
    requires
        0 <= k < tokens.len(),
    ensures
        u64_tokens(tokens.take(k + 1)) == match parse_u64(tokens[k]) {
            Some(d) => u64_tokens(tokens.take(k)).push(d),
            None => u64_tokens(tokens.take(k)),
        },
{
    assert(tokens.take(k + 1).drop_last() =~= tokens.take(k));
    assert(tokens.take(k + 1).last() == tokens[k]);
}

/// Digit strings have no negative value.
proof fn lemma_digits_nonneg(d: Seq<char>)
    requires
        forall|i: int| 0 <= i < d.len() ==> is_digit(#[trigger] d[i]),
    ensures
        digits_value(d) >= 0,
    decreases d.len(),
{
    if d.len() > 0 {
        lemma_digits_nonneg(d.drop_last());
        assert(is_digit(d[d.len() - 1]));
    }
}

/// A prefix of a digit string writes a number no larger than the whole string.
proof fn lemma_digits_prefix_le(d: Seq<char>, i: int)
    requires
        0 <= i <= d.len(),
        forall|k: int| 0 <= k < d.len() ==> is_digit(#[trigger] d[k]),
    ensures
        digits_value(d.subrange(0, i)) <= digits_value(d),
    decreases d.len(),
{
    if i < d.len() {
        let dl = d.drop_last();
        assert(forall|k: int| 0 <= k < dl.len() ==> is_digit(#[trigger] dl[k])) by {
            assert(forall|k: int| 0 <= k < dl.len() ==> dl[k] == d[k]);
        }
        lemma_digits_prefix_le(dl, i);
        assert(dl.subrange(0, i) =~= d.subrange(0, i));
        lemma_digits_nonneg(dl);
        assert(is_digit(d[d.len() - 1]));
        let v = digits_value(dl);
        assert(v * 10 >= v) by (nonlinear_arith)
            requires
                v >= 0,
        ;
    } else {
        assert(d.subrange(0, i) =~= d);
    }
}

/// What `str::parse::<u64>` gives for a token.
pub fn parse_u64_chars(t: &Vec<char>) -> (r: Option<u64>)
    ensures
        r == parse_u64(t@),
{
    let start: usize = if t.len() > 0 && t[0] == '+' {
        1
    } else {
        0
    };
    let ghost d = unsigned_digits(t@);
    assert(d =~= t@.subrange(start as int, t@.len() as int));
    if start >= t.len() {
        return None;
    }
    let mut v: u64 = 0;
    let mut i = start;
    while i < t.len()
        invariant
            start <= i <= t.len(),
            start < t.len(),
            d == unsigned_digits(t@),
            d == t@.subrange(start as int, t@.len() as int),
            forall|k: int| start <= k < i ==> is_digit(#[trigger] t@[k]),
            v == digits_value(t@.subrange(start as int, i as int)),
        decreases t.len() - i,
    {
        let c = t[i];
        let ghost pre = t@.subrange(start as int, i as int);
        let ghost pre1 = t@.subrange(start as int, i + 1);
        assert(pre1.drop_last() =~= pre);
        if !('0' <= c && c <= '9') {
            proof {
                assert(d[i - start] == c);
                assert(!is_digit(d[i - start]));
                assert(!(forall|k: int| 0 <= k < d.len() ==> is_digit(#[trigger] d[k])));
                assert(parse_u64(t@) is None);
            }
            return None;
        }
        let dig: u64 = (c as u32 - '0' as u32) as u64;
        assert(digits_value(pre1) == v * 10 + dig);
        if v > (u64::MAX - dig) / 10 {
            proof {
                let m = u64::MAX - dig;
                assert(v * 10 + dig > u64::MAX) by (nonlinear_arith)
                    requires
                        v > m / 10,
                        m == u64::MAX - dig,
                        0 <= dig <= 9,
                ;
                assert(parse_u64(t@) is None) by {
                    if forall|k: int| 0 <= k < d.len() ==> is_digit(#[trigger] d[k]) {
                        lemma_digits_prefix_le(d, i + 1 - start);
                        assert(d.subrange(0, i + 1 - start) =~= pre1);
                    }
                }
            }
            return None;
        }
        proof {
            let m = u64::MAX - dig;
            assert(v * 10 + dig <= u64::MAX) by (nonlinear_arith)
                requires
                    v <= m / 10,
                    m == u64::MAX - dig,
            ;
        }
        v = v * 10 + dig;
        i = i + 1;
    }
    assert(t@.subrange(start as int, i as int) =~= d);
    assert(forall|k: int| 0 <= k < d.len() ==> is_digit(#[trigger] d[k])) by {
        assert(forall|k: int| 0 <= k < d.len() ==> d[k] == t@[start + k]);
    }
    Some(v)
}

/// The largest of `s` and one more element.
proof fn lemma_seq_max_push(s: Seq<u64>, d: u64)
    ensures
        seq_max(s.push(d)) == Some(
            match seq_max(s) {
                None => d,
                Some(m) => if d > m {
                    d
                } else {
                    m
                },
            },
        ),
{
    assert(s.push(d).drop_last() =~= s);
}

/// Reads the durations and the slow-down multiplier of an animation source.
///
/// Scans line by line for every `duration-ms <int>` value and keeps the largest;
/// collects the argument of the first `slowdown` on each line (the multiplier is
/// the last of them that reads as a number). Text inside `/* ... */` (also across lines) and after
/// `//` is skipped.
pub fn scan_animation_source(content: &str) -> (r: DurationScan)
    ensures
        r.max_duration_ms == source_max_duration(content@),
        string_views(r.slowdowns@) == source_slowdowns(content@),
{
    let chars = chars_of(content);
    let ls = split_lines(&chars);
    let ghost lv = char_views(ls@);
    let comment = pattern2('/', '/');
    let dkey = chars_of("duration-ms");
    let skey = chars_of("slowdown ");
    proof {
        reveal_strlit("duration-ms");
        reveal_strlit("slowdown ");
        assert(dkey@ =~= duration_key());
        assert(skey@ =~= slowdown_key());
    }
    let mut in_block = false;
    let mut max: Option<u64> = None;
    let mut slow: Vec<String> = Vec::new();
    let mut i: usize = 0;
    while i < ls.len()
        invariant
            i <= ls.len(),
            lv == char_views(ls@),
            lv == lines(content@),
            comment@ == line_comment(),
            dkey@ == duration_key(),
            skey@ == slowdown_key(),
            in_block == block_before(lv, i as int),
            max == seq_max(durations_upto(lv, i as int)),
            string_views(slow@) == slowdowns_upto(lv, i as int),
        decreases ls.len() - i,
    {
        assert(lv[i as int] == ls@[i as int]@);
        let code = code_of_line(&ls[i], &mut in_block, &comment);
        assert(code@ == code_line(lv, i as int));
        let dtoks = tokens_after(&code, &dkey);
        let ghost dv = char_views(dtoks@);
        let ghost dprev = durations_upto(lv, i as int);
        let mut k: usize = 0;
        while k < dtoks.len()
            invariant
                k <= dtoks.len(),
                dv == char_views(dtoks@),
                max == seq_max(dprev + u64_tokens(dv.take(k as int))),
            decreases dtoks.len() - k,
        {
            proof {
                lemma_u64_tokens_take(dv, k as int);
            }
            assert(dv[k as int] == dtoks@[k as int]@);
            match parse_u64_chars(&dtoks[k]) {
                Some(d) => {
                    proof {
                        let x = u64_tokens(dv.take(k as int));
                        lemma_seq_max_push(dprev + x, d);
                        assert((dprev + x).push(d) =~= dprev + x.push(d));
                    }
                    max = Some(
                        match max {
                            None => d,
                            Some(m) => if d > m {
                                d
                            } else {
                                m
                            },
                        },
                    );
                },
                None => {},
            }
            k = k + 1;
        }
        assert(dv.take(dtoks.len() as int) =~= dv);
        match token_after(&code, &skey) {
            Some(tok) => {
                let ghost before = string_views(slow@);
                let s = string_of(&tok, 0, tok.len());
                assert(tok@.subrange(0, tok@.len() as int) =~= tok@);
                slow.push(s);
                assert(string_views(slow@) =~= before.push(tok@));
                assert(before + seq![tok@] =~= before.push(tok@));
            },
            None => {
                assert(string_views(slow@) + Seq::<Seq<char>>::empty() =~= string_views(slow@));
            },
        }
        i = i + 1;
    }
    DurationScan { max_duration_ms: max, slowdowns: slow }
}

} // verus!

verus! {

/// The longest duration is one of the durations found and none is longer; there is
/// none exactly when no duration was found.
pub proof fn lemma_seq_max(s: Seq<u64>)
    ensures
        s.len() == 0 <==> seq_max(s) is None,
        match seq_max(s) {
            Some(m) => s.contains(m) && forall|i: int| 0 <= i < s.len() ==> #[trigger] s[i] <= m,
            None => true,
        },
    decreases s.len(),
{
    if s.len() > 0 {
        let t = s.drop_last();
        lemma_seq_max(t);
        assert forall|i: int| 0 <= i < t.len() implies #[trigger] t[i] == s[i] by {}
        let last = s[s.len() - 1];
        match seq_max(t) {
            None => {
                assert(t.len() == 0);
                assert(s.contains(last));
            },
            Some(m) => {
                let k = choose|k: int| 0 <= k < t.len() && t[k] == m;
                assert(s[k] == m);
                let r = if last > m {
                    last
                } else {
                    m
                };
                assert(seq_max(s) == Some(r));
                assert(s.contains(r));
                assert forall|i: int| 0 <= i < s.len() implies #[trigger] s[i] <= r by {
                    if i < s.len() - 1 {
                        assert(t[i] <= m);
                    }
                }
            },
        }
    }
}

/// What an animation source declares: its longest duration is one that some line
/// declares and no line declares a longer one; without any `duration-ms` there is
/// none.
pub proof fn lemma_source_max_duration(content: Seq<char>)
    ensures
        source_durations(content).len() == 0 <==> source_max_duration(content) is None,
        match source_max_duration(content) {
            Some(m) => source_durations(content).contains(m) && forall|i: int|
                0 <= i < source_durations(content).len() ==> #[trigger] source_durations(
                    content,
                )[i] <= m,
            None => true,
        },
{
    lemma_seq_max(source_durations(content));
}

} // verus!

verus! {

/// What an animation file says of its play time, given its text (`None` when it
/// could not be read, which declares nothing).
pub fn scan_animation_file(content: Option<&str>) -> (r: DurationScan)
    ensures
        match content {
            Some(c) => r.max_duration_ms == source_max_duration(c@) && string_views(r.slowdowns@)
                == source_slowdowns(c@),
            None => r.max_duration_ms is None && r.slowdowns@.len() == 0,
        },
{
    match content {
        Some(c) => scan_animation_source(c),
        None => DurationScan { max_duration_ms: None, slowdowns: Vec::new() },
    }
}

} // verus!
