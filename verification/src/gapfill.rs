//! Resolving one line into display tokens: ordering the known tokens by
//! offset and filling the columns that none of them claims with plain runs.

use vstd::prelude::*;
use vstd::string::*;

use crate::text::{from_chars, to_chars};
use crate::types::{token_views, Color, Token, TokenView};

verus! {

/// Whether `tokens` stand in ascending order of offset.
pub open spec fn ordered(tokens: Seq<TokenView>) -> bool {
    forall|i: int, j: int| 0 <= i < j < tokens.len() ==> tokens[i].offset <= tokens[j].offset
}

/// Where a token at `offset` goes into the ordered sequence `tokens`:
/// behind every token that starts at or before it.
pub open spec fn insert_pos(tokens: Seq<TokenView>, offset: int) -> int
    decreases tokens.len(),
{
    if tokens.len() == 0 {
        0
    } else if tokens.last().offset <= offset {
        tokens.len() as int
    } else {
        insert_pos(tokens.drop_last(), offset)
    }
}

/// `tokens` in ascending order of offset; tokens of equal offset keep the
/// order they came in.
pub open spec fn by_offset(tokens: Seq<TokenView>) -> Seq<TokenView>
    decreases tokens.len(),
{
    if tokens.len() == 0 {
        Seq::empty()
    } else {
        let rest = by_offset(tokens.drop_last());
        rest.insert(insert_pos(rest, tokens.last().offset), tokens.last())
    }
}

/// The insertion position splits an ordered sequence into the tokens that
/// start at or before `offset` and those that start after it.
pub proof fn lemma_insert_pos(tokens: Seq<TokenView>, offset: int)
    requires
        ordered(tokens),
    ensures
        0 <= insert_pos(tokens, offset) <= tokens.len(),
        forall|i: int| 0 <= i < insert_pos(tokens, offset) ==> tokens[i].offset <= offset,
        forall|i: int| insert_pos(tokens, offset) <= i < tokens.len() ==> tokens[i].offset > offset,
    decreases tokens.len(),
{
    if tokens.len() > 0 && tokens.last().offset > offset {
        let front = tokens.drop_last();
        assert(ordered(front)) by {
            assert forall|i: int, j: int| 0 <= i < j < front.len() implies front[i].offset
                <= front[j].offset by {
                assert(front[i] == tokens[i] && front[j] == tokens[j]);
            }
        }
        lemma_insert_pos(front, offset);
        assert(forall|i: int| 0 <= i < front.len() ==> front[i] == tokens[i]);
    }
}

/// Sorting keeps the number of tokens and yields an ordered sequence.
pub proof fn lemma_by_offset_ordered(tokens: Seq<TokenView>)
    ensures
        by_offset(tokens).len() == tokens.len(),
        ordered(by_offset(tokens)),
    decreases tokens.len(),
{
    if tokens.len() > 0 {
        let rest = by_offset(tokens.drop_last());
        lemma_by_offset_ordered(tokens.drop_last());
        let t = tokens.last();
        lemma_insert_pos(rest, t.offset);
        let p = insert_pos(rest, t.offset);
        let out = rest.insert(p, t);
        assert forall|i: int, j: int| 0 <= i < j < out.len() implies out[i].offset
            <= out[j].offset by {
            if j < p {
                assert(out[i] == rest[i] && out[j] == rest[j]);
            } else if j == p {
                assert(out[i] == rest[i]);
            } else if i < p {
                assert(out[i] == rest[i] && out[j] == rest[j - 1]);
            } else if i == p {
                assert(out[j] == rest[j - 1]);
            } else {
                assert(out[i] == rest[i - 1] && out[j] == rest[j - 1]);
            }
        }
    }
}

/// An ordered sequence is its own sorting.
pub proof fn lemma_by_offset_of_ordered(tokens: Seq<TokenView>)
    requires
        ordered(tokens),
    ensures
        by_offset(tokens) == tokens,
    decreases tokens.len(),
{
    if tokens.len() > 0 {
        let front = tokens.drop_last();
        assert(ordered(front)) by {
            assert forall|i: int, j: int| 0 <= i < j < front.len() implies front[i].offset
                <= front[j].offset by {
                assert(front[i] == tokens[i] && front[j] == tokens[j]);
            }
        }
        lemma_by_offset_of_ordered(front);
        if front.len() > 0 {
            assert(front.last() == tokens[tokens.len() - 2]);
        }
        assert(insert_pos(front, tokens.last().offset) == front.len());
        assert(front.insert(front.len() as int, tokens.last()) =~= tokens);
    }
}

/// Sorts tokens by offset, keeping the order of tokens of equal offset.
pub fn sort_by_offset(tokens: &Vec<Token>) -> (out: Vec<Token>)
    ensures
        token_views(out@) == by_offset(token_views(tokens@)),
        ordered(token_views(out@)),
{
    let mut out: Vec<Token> = Vec::new();
    let mut i: usize = 0;
    assert(token_views(tokens@).subrange(0, 0) =~= Seq::<TokenView>::empty());
    while i < tokens.len()
        invariant
            i <= tokens.len(),
            out.len() == i,
            token_views(out@) =~= by_offset(token_views(tokens@).subrange(0, i as int)),
        decreases tokens.len() - i,
    {
        let ghost done = token_views(tokens@).subrange(0, i as int);
        let ghost next = token_views(tokens@).subrange(0, i + 1);
        let ghost sorted = token_views(out@);
        let t = tokens[i].duplicate();
        proof {
            assert(next.drop_last() =~= done);
            assert(next.last() == t@);
            lemma_by_offset_ordered(done);
        }
        let mut pos: usize = out.len();
        assert(sorted.subrange(0, pos as int) =~= sorted);
        while pos > 0 && out[pos - 1].offset > t.offset
            invariant
                pos <= out.len(),
                sorted == token_views(out@),
                insert_pos(sorted, t@.offset) == insert_pos(
                    sorted.subrange(0, pos as int),
                    t@.offset,
                ),
            decreases pos,
        {
            let ghost cur = sorted.subrange(0, pos as int);
            assert(cur.last() == out[pos - 1]@);
            assert(cur.drop_last() =~= sorted.subrange(0, pos - 1));
            pos = pos - 1;
        }
        proof {
            let cur = sorted.subrange(0, pos as int);
            if pos > 0 {
                assert(cur.last() == out[pos - 1]@);
            }
            assert(insert_pos(sorted, t@.offset) == pos);
        }
        out.insert(pos, t);
        i = i + 1;
        assert(token_views(out@) =~= sorted.insert(pos as int, t@));
    }
    proof {
        assert(token_views(tokens@).subrange(0, i as int) =~= token_views(tokens@));
        lemma_by_offset_ordered(token_views(tokens@));
    }
    out
}

/// The plain token for columns `from..to` of `line`, if there are any.
pub open spec fn plain_run(line: Seq<char>, from: int, to: int) -> Seq<TokenView> {
    if 0 <= from < to <= line.len() {
        seq![TokenView { text: line.subrange(from, to), offset: from, style: Some(Color::White) }]
    } else {
        Seq::empty()
    }
}

/// Whether the known token `t`, met at column `at`, claims columns of
/// `line`: it starts at or after `at`, inside the line, and is not empty.
pub open spec fn claims(line: Seq<char>, t: TokenView, at: int) -> bool {
    at <= t.offset < line.len() && t.text.len() > 0
}

/// The column up to which the unclaimed run before `t` reaches.
pub open spec fn run_end(line: Seq<char>, t: TokenView, at: int) -> int {
    if t.offset < at {
        at
    } else if t.offset < line.len() {
        t.offset
    } else if at < line.len() {
        line.len() as int
    } else {
        at
    }
}

/// The column at which the scan goes on behind `t`.
pub open spec fn resume(line: Seq<char>, t: TokenView, at: int) -> int {
    if claims(line, t, at) {
        t.offset + t.text.len()
    } else {
        run_end(line, t, at)
    }
}

/// The display tokens of `line` from column `at` on, given the known tokens
/// `known[k..]` in offset order: every known token, and before each the
/// plain run of the columns that nothing claimed. A known token that claims
/// its columns moves the scan behind it; one that starts inside columns
/// already claimed, is empty or lies past the line is kept and claims
/// nothing.
pub open spec fn woven(line: Seq<char>, known: Seq<TokenView>, k: int, at: int) -> Seq<TokenView>
    decreases known.len() - k,
{
    if k < 0 || k >= known.len() {
        plain_run(line, at, line.len() as int)
    } else {
        plain_run(line, at, run_end(line, known[k], at)) + seq![known[k]] + woven(
            line,
            known,
            k + 1,
            resume(line, known[k], at),
        )
    }
}

/// The plain runs among `woven`, alone.
pub open spec fn gaps(line: Seq<char>, known: Seq<TokenView>, k: int, at: int) -> Seq<TokenView>
    decreases known.len() - k,
{
    if k < 0 || k >= known.len() {
        plain_run(line, at, line.len() as int)
    } else {
        plain_run(line, at, run_end(line, known[k], at)) + gaps(
            line,
            known,
            k + 1,
            resume(line, known[k], at),
        )
    }
}

/// The display tokens of `line` given its known tokens in any order.
pub open spec fn resolved(line: Seq<char>, known: Seq<TokenView>) -> Seq<TokenView> {
    woven(line, by_offset(known), 0, 0)
}

/// The plain runs that `resolved` adds to the known tokens.
pub open spec fn filled(line: Seq<char>, known: Seq<TokenView>) -> Seq<TokenView> {
    gaps(line, by_offset(known), 0, 0)
}

/// Fills the columns of `line` that no token of `known` claims. Returns all
/// display tokens in offset order, and the plain runs alone.
pub fn fill_gaps(line: &str, known: &Vec<Token>) -> (out: (Vec<Token>, Vec<Token>))
    ensures
        token_views(out.0@) == resolved(line@, token_views(known@)),
        token_views(out.1@) == filled(line@, token_views(known@)),
        ordered(token_views(out.0@)),
        fits(by_offset(token_views(known@)), line@) ==> covers(token_views(out.0@), line@),
{
    proof {
        lemma_resolved_ordered(line@, token_views(known@));
        if fits(by_offset(token_views(known@)), line@) {
            lemma_resolved_covers(line@, token_views(known@));
        }
    }
    let sorted = sort_by_offset(known);
    let chars = to_chars(line);
    let n = chars.len();
    let mut all: Vec<Token> = Vec::new();
    let mut runs: Vec<Token> = Vec::new();
    let mut at: usize = 0;
    let mut k: usize = 0;
    let ghost ks = token_views(sorted@);
    while k < sorted.len()
        invariant
            k <= sorted.len(),
            n == chars@.len(),
            chars@ == line@,
            ks == token_views(sorted@),
            token_views(all@) + woven(line@, ks, k as int, at as int) =~= woven(line@, ks, 0, 0),
            token_views(runs@) + gaps(line@, ks, k as int, at as int) =~= gaps(line@, ks, 0, 0),
        decreases sorted.len() - k,
    {
        let t = sorted[k].duplicate();
        assert(t@ == ks[k as int]);
        let ghost all0 = token_views(all@);
        let ghost runs0 = token_views(runs@);
        let end: usize = if t.offset < at {
            at
        } else if t.offset < n {
            t.offset
        } else if at < n {
            n
        } else {
            at
        };
        assert(end == run_end(line@, t@, at as int));
        if at < end {
            let text = from_chars(&chars, at, end);
            let text2 = text.clone();
            all.push(Token { text, offset: at, style: Some(Color::White) });
            runs.push(Token { text: text2, offset: at, style: Some(Color::White) });
        }
        assert(token_views(all@) =~= all0 + plain_run(line@, at as int, end as int));
        assert(token_views(runs@) =~= runs0 + plain_run(line@, at as int, end as int));
        let len = t.text.as_str().unicode_len();
        let next: usize = if at <= t.offset && t.offset < n && len > 0 {
            if len > usize::MAX - t.offset {
                usize::MAX
            } else {
                t.offset + len
            }
        } else {
            end
        };
        all.push(t);
        assert(token_views(all@) =~= all0 + plain_run(line@, at as int, end as int) + seq![
            ks[k as int],
        ]);
        proof {
            let exact = resume(line@, ks[k as int], at as int);
            // Past the end of the line every position resolves alike.
            lemma_woven_past_end(line@, ks, k + 1, next as int, exact);
        }
        at = next;
        k = k + 1;
    }
    if at < n {
        let text = from_chars(&chars, at, n);
        let text2 = text.clone();
        let ghost all0 = token_views(all@);
        let ghost runs0 = token_views(runs@);
        all.push(Token { text, offset: at, style: Some(Color::White) });
        runs.push(Token { text: text2, offset: at, style: Some(Color::White) });
        assert(token_views(all@) =~= all0 + plain_run(line@, at as int, n as int));
        assert(token_views(runs@) =~= runs0 + plain_run(line@, at as int, n as int));
    }
    (all, runs)
}

/// Two scan positions at or past the end of the line give the same tokens.
pub proof fn lemma_woven_past_end(line: Seq<char>, known: Seq<TokenView>, k: int, a: int, b: int)
    requires
        a == b || (a >= line.len() && b >= line.len()),
    ensures
        woven(line, known, k, a) == woven(line, known, k, b),
        gaps(line, known, k, a) == gaps(line, known, k, b),
    decreases known.len() - k,
{
    if a != b && 0 <= k < known.len() {
        let t = known[k];
        assert(plain_run(line, a, run_end(line, t, a)) == plain_run(line, b, run_end(line, t, b)));
        lemma_woven_past_end(line, known, k + 1, resume(line, t, a), resume(line, t, b));
    }
}

/// Whether `tokens` tile `line` from column `from` to its end: each token
/// starts where the one before it ended, none is empty, and each holds the
/// characters of the line at its columns.
pub open spec fn tiles(tokens: Seq<TokenView>, line: Seq<char>, from: int) -> bool
    decreases tokens.len(),
{
    if tokens.len() == 0 {
        from == line.len()
    } else {
        &&& tokens[0].offset == from
        &&& tokens[0].text.len() > 0
        &&& tokens[0].end() <= line.len()
        &&& tokens[0].text == line.subrange(from, tokens[0].end())
        &&& tiles(tokens.drop_first(), line, tokens[0].end())
    }
}

/// Whether `tokens` cover `line` without gap or overlap.
pub open spec fn covers(tokens: Seq<TokenView>, line: Seq<char>) -> bool {
    tiles(tokens, line, 0)
}

/// The texts of `tokens`, one after the other.
pub open spec fn texts_joined(tokens: Seq<TokenView>) -> Seq<char>
    decreases tokens.len(),
{
    if tokens.len() == 0 {
        Seq::empty()
    } else {
        tokens[0].text + texts_joined(tokens.drop_first())
    }
}

/// Whether the known tokens `known`, taken in offset order, fit `line`:
/// none is empty, each lies inside the line and holds the characters of the
/// line at its columns, and none starts before the one before it has ended.
pub open spec fn fits(known: Seq<TokenView>, line: Seq<char>) -> bool {
    &&& forall|k: int|
        0 <= k < known.len() ==> {
            &&& 0 <= (#[trigger] known[k]).offset
            &&& known[k].text.len() > 0
            &&& known[k].end() <= line.len()
            &&& known[k].text == line.subrange(known[k].offset, known[k].end())
        }
    &&& forall|k: int|
        0 <= k < known.len() - 1 ==> (#[trigger] known[k]).end() <= known[k + 1].offset
}

/// Whether `t` holds the characters of `line` at its columns.
pub open spec fn matches_line(t: TokenView, line: Seq<char>) -> bool {
    &&& 0 <= t.offset
    &&& t.end() <= line.len()
    &&& t.text == line.subrange(t.offset, t.end())
}

/// Whether every token of `tokens` holds the characters of `line` at its
/// columns.
pub open spec fn all_match(tokens: Seq<TokenView>, line: Seq<char>) -> bool {
    forall|k: int| 0 <= k < tokens.len() ==> matches_line(#[trigger] tokens[k], line)
}

/// Whether the tokens of `tokens`, in the order given, stand apart: none is
/// empty and none starts before the one before it has ended.
pub open spec fn apart(tokens: Seq<TokenView>) -> bool {
    &&& forall|k: int| 0 <= k < tokens.len() ==> (#[trigger] tokens[k]).text.len() > 0
    &&& forall|k: int|
        0 <= k < tokens.len() - 1 ==> (#[trigger] tokens[k]).end() <= tokens[k + 1].offset
}

/// Putting tokens in offset order keeps them matching the line.
pub proof fn lemma_by_offset_all_match(tokens: Seq<TokenView>, line: Seq<char>)
    requires
        all_match(tokens, line),
    ensures
        all_match(by_offset(tokens), line),
    decreases tokens.len(),
{
    if tokens.len() > 0 {
        let front = tokens.drop_last();
        assert(all_match(front, line)) by {
            assert forall|k: int| 0 <= k < front.len() implies matches_line(
                #[trigger] front[k],
                line,
            ) by {
                assert(front[k] == tokens[k]);
            }
        }
        lemma_by_offset_all_match(front, line);
        lemma_by_offset_ordered(front);
        let rest = by_offset(front);
        lemma_insert_pos(rest, tokens.last().offset);
        let p = insert_pos(rest, tokens.last().offset);
        let out = rest.insert(p, tokens.last());
        assert forall|k: int| 0 <= k < out.len() implies matches_line(#[trigger] out[k], line) by {
            if k < p {
                assert(out[k] == rest[k]);
            } else if k == p {
                assert(out[k] == tokens[tokens.len() - 1]);
            } else {
                assert(out[k] == rest[k - 1]);
            }
        }
    }
}

/// Tokens that match the line and, in offset order, stand apart fit the
/// line: only empty and overlapping tokens stand in the way of covering it.
pub proof fn lemma_apart_fits(known: Seq<TokenView>, line: Seq<char>)
    requires
        all_match(known, line),
        apart(by_offset(known)),
    ensures
        fits(by_offset(known), line),
{
    lemma_by_offset_all_match(known, line);
}

/// Tokens that tile a line from `from` on spell out the line from `from`
/// on.
pub proof fn lemma_tiles_spell(tokens: Seq<TokenView>, line: Seq<char>, from: int)
    requires
        0 <= from <= line.len(),
        tiles(tokens, line, from),
    ensures
        texts_joined(tokens) == line.subrange(from, line.len() as int),
    decreases tokens.len(),
{
    if tokens.len() == 0 {
        assert(line.subrange(from, line.len() as int) =~= Seq::<char>::empty());
    } else {
        lemma_tiles_spell(tokens.drop_first(), line, tokens[0].end());
        assert(line.subrange(from, tokens[0].end()) + line.subrange(
            tokens[0].end(),
            line.len() as int,
        ) =~= line.subrange(from, line.len() as int));
    }
}

/// Known tokens that fit the line are woven into a tiling of it.
pub proof fn lemma_woven_tiles(line: Seq<char>, known: Seq<TokenView>, k: int, at: int)
    requires
        fits(known, line),
        0 <= k <= known.len(),
        0 <= at <= line.len(),
        k < known.len() ==> at <= known[k].offset,
    ensures
        tiles(woven(line, known, k, at), line, at),
    decreases known.len() - k,
{
    let n = line.len() as int;
    if k >= known.len() {
        let run = plain_run(line, at, n);
        assert(woven(line, known, k, at) == run);
        if at < n {
            assert(run.drop_first() =~= Seq::<TokenView>::empty());
            assert(line.subrange(at, n).len() > 0);
            assert(tiles(run.drop_first(), line, n));
            assert(tiles(run, line, at));
        } else {
            assert(run.len() == 0);
        }
    } else {
        let t = known[k];
        assert(t.offset < n && t.text.len() > 0);
        assert(claims(line, t, at));
        assert(run_end(line, t, at) == t.offset);
        assert(resume(line, t, at) == t.end());
        let rest = woven(line, known, k + 1, t.end());
        if k + 1 < known.len() {
            assert(known[k].end() <= known[k + 1].offset);
        }
        lemma_woven_tiles(line, known, k + 1, t.end());
        let run = plain_run(line, at, t.offset);
        let all = run + seq![t] + rest;
        assert(woven(line, known, k, at) == all);
        let tail = seq![t] + rest;
        assert(tail.drop_first() =~= rest);
        assert(tail[0] == t);
        assert(tiles(tail, line, t.offset));
        if at < t.offset {
            assert(all.drop_first() =~= tail);
            assert(all[0] == run[0]);
            assert(run[0].end() == t.offset);
            assert(tiles(all, line, at));
        } else {
            assert(all =~= tail);
        }
    }
}

/// Filling the gaps between known tokens that fit a line covers the line:
/// the resolved tokens, in order, tile it and spell it out.
pub proof fn lemma_resolved_covers(line: Seq<char>, known: Seq<TokenView>)
    requires
        fits(by_offset(known), line),
    ensures
        covers(resolved(line, known), line),
        texts_joined(resolved(line, known)) == line,
{
    let sorted = by_offset(known);
    if sorted.len() > 0 {
        assert(0 <= sorted[0].offset);
    }
    lemma_woven_tiles(line, sorted, 0, 0);
    lemma_tiles_spell(resolved(line, known), line, 0);
    assert(line.subrange(0, line.len() as int) =~= line);
}

/// A line of which nothing is known, or only that it is one token from its
/// first column to its last, is covered: the known tokens fit it.
pub proof fn lemma_plain_line_fits(line: Seq<char>, style: Option<Color>)
    ensures
        fits(by_offset(Seq::empty()), line),
        line.len() > 0 ==> fits(by_offset(seq![TokenView { text: line, offset: 0, style }]), line),
{
    let whole = seq![TokenView { text: line, offset: 0, style }];
    assert(whole.drop_last() =~= Seq::<TokenView>::empty());
    assert(by_offset(whole.drop_last()) =~= Seq::<TokenView>::empty());
    assert(insert_pos(Seq::<TokenView>::empty(), 0) == 0);
    assert(Seq::<TokenView>::empty().insert(0, whole.last()) =~= whole);
    assert(by_offset(whole) =~= whole);
    if line.len() > 0 {
        assert(line.subrange(0, line.len() as int) =~= line);
    }
}

/// What was resolved for a line resolves again from the cache: where
/// nothing is known of the line but what the rules found, the resolved
/// tokens, put in offset order once more, are themselves, and still cover
/// the line where the known tokens fit it.
pub proof fn lemma_resolved_again(line: Seq<char>, known: Seq<TokenView>)
    ensures
        by_offset(Seq::<TokenView>::empty() + resolved(line, known)) == resolved(line, known),
        fits(by_offset(known), line) ==> covers(
            by_offset(Seq::<TokenView>::empty() + resolved(line, known)),
            line,
        ),
{
    lemma_resolved_ordered(line, known);
    lemma_by_offset_of_ordered(resolved(line, known));
    assert(Seq::<TokenView>::empty() + resolved(line, known) =~= resolved(line, known));
    if fits(by_offset(known), line) {
        lemma_resolved_covers(line, known);
    }
}

/// Weaving ordered known tokens with plain runs gives ordered tokens.
pub proof fn lemma_woven_ordered(line: Seq<char>, known: Seq<TokenView>, k: int, at: int)
    requires
        ordered(known),
        0 <= k <= known.len(),
        0 <= at,
    ensures
        ordered(woven(line, known, k, at)),
        forall|i: int|
            0 <= i < woven(line, known, k, at).len() ==> (at <= (#[trigger] woven(
                line,
                known,
                k,
                at,
            )[i]).offset < line.len()) || (k < known.len() && woven(line, known, k, at)[i].offset
                >= known[k].offset),
    decreases known.len() - k,
{
    let n = line.len() as int;
    if k < known.len() {
        let t = known[k];
        let run = plain_run(line, at, run_end(line, t, at));
        let next = resume(line, t, at);
        let rest = woven(line, known, k + 1, next);
        lemma_woven_ordered(line, known, k + 1, next);
        let all = run + seq![t] + rest;
        let g = run.len() as int;
        assert forall|i: int| 0 <= i < rest.len() implies (#[trigger] rest[i]).offset
            >= t.offset by {
            if k + 1 < known.len() && rest[i].offset >= known[k + 1].offset {
                assert(known[k].offset <= known[k + 1].offset);
            }
        }
        assert forall|i: int| 0 <= i < all.len() implies (at <= (#[trigger] all[i]).offset < n)
            || all[i].offset >= t.offset by {
            if i < g {
                assert(all[i] == run[i]);
            } else if i == g {
                assert(all[i] == t);
            } else {
                assert(all[i] == rest[i - g - 1]);
            }
        }
        assert forall|i: int, j: int| 0 <= i < j < all.len() implies all[i].offset
            <= all[j].offset by {
            if i < g {
                assert(all[i] == run[0]);
                if j == g {
                    assert(all[j] == t);
                } else {
                    assert(all[j] == rest[j - g - 1]);
                }
            } else if i == g {
                assert(all[i] == t);
                assert(all[j] == rest[j - g - 1]);
            } else {
                assert(all[i] == rest[i - g - 1]);
                assert(all[j] == rest[j - g - 1]);
            }
        }
    }
}

/// Resolved tokens stand in offset order, whatever is known of the line.
pub proof fn lemma_resolved_ordered(line: Seq<char>, known: Seq<TokenView>)
    ensures
        ordered(resolved(line, known)),
{
    lemma_by_offset_ordered(known);
    lemma_woven_ordered(line, by_offset(known), 0, 0);
}

} // verus!
