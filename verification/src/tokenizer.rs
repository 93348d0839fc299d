//! Splitting command text into stages and tokens.
//!
//! A pipeline description is cut into segments at every `|`, and each segment
//! is cut into tokens at runs of whitespace. Quote characters have no special
//! meaning: they are ordinary characters of the token they stand in.

use crate::stage::{texts, PipelineSpec, Stage, TokenizeError};
use vstd::prelude::*;
use vstd::string::StrSliceExecFns;

verus! {

/// The characters that separate tokens: space, tab, line feed, form feed and
/// carriage return.
pub open spec fn is_space(c: char) -> bool {
    c == ' ' || c == '\t' || c == '\n' || c == '\u{c}' || c == '\r'
}

/// The predicate that holds of token separators.
pub open spec fn spaces() -> spec_fn(char) -> bool {
    |c: char| is_space(c)
}

/// The predicate that holds of the character `d` alone.
pub open spec fn only(d: char) -> spec_fn(char) -> bool {
    |c: char| c == d
}

/// The number of characters of `s` that stand before the first one of which
/// `stop` holds; the length of `s` where `stop` holds of none.
pub open spec fn run_len(s: Seq<char>, stop: spec_fn(char) -> bool) -> nat
    decreases s.len(),
{
    if s.len() == 0 || stop(s[0]) {
        0
    } else {
        1 + run_len(s.skip(1), stop)
    }
}

/// The pieces of `s` between the occurrences of the delimiter `d`, in order.
/// A text with `n` delimiters has `n + 1` pieces, some of which may be empty.
pub open spec fn pieces(s: Seq<char>, d: char) -> Seq<Seq<char>>
    decreases s.len(),
{
    let n = run_len(s, only(d)) as int;
    if n >= s.len() {
        seq![s]
    } else {
        seq![s.take(n)] + pieces(s.skip(n + 1), d)
    }
}

/// The tokens of `s`: its maximal runs of characters that are not whitespace,
/// in order.
pub open spec fn words(s: Seq<char>) -> Seq<Seq<char>>
    decreases s.len(),
    via words_decreases
{
    if s.len() == 0 {
        Seq::empty()
    } else if is_space(s[0]) {
        words(s.skip(1))
    } else {
        let n = run_len(s, spaces()) as int;
        seq![s.take(n)] + words(s.skip(n))
    }
}

#[via_fn]
proof fn words_decreases(s: Seq<char>) {
    lemma_run_len(s, spaces());
}

/// The segments of a pipeline description: its pieces between pipes.
pub open spec fn segments(s: Seq<char>) -> Seq<Seq<char>> {
    pieces(s, '|')
}

/// A command without any token.
pub open spec fn is_blank(s: Seq<char>) -> bool {
    words(s).len() == 0
}

/// Tells whether one of the commands holds no token.
pub open spec fn has_blank(commands: Seq<Seq<char>>) -> bool {
    exists|i: int| 0 <= i < commands.len() && is_blank(#[trigger] commands[i])
}

/// The stages that a chain of commands describes: the tokens of each command.
pub open spec fn stages_of(commands: Seq<Seq<char>>) -> Seq<Seq<Seq<char>>> {
    Seq::new(commands.len(), |i: int| words(commands[i]))
}

/// `run_len` stays within the text, passes over no stopping character and
/// ends at one unless it reaches the end.
pub proof fn lemma_run_len(s: Seq<char>, stop: spec_fn(char) -> bool)
    ensures
        run_len(s, stop) <= s.len(),
        forall|j: int| 0 <= j < run_len(s, stop) ==> !stop(#[trigger] s[j]),
        run_len(s, stop) < s.len() ==> stop(s[run_len(s, stop) as int]),
    decreases s.len(),
{
    if s.len() == 0 || stop(s[0]) {
    } else {
        let t = s.skip(1);
        lemma_run_len(t, stop);
        assert forall|j: int| 0 <= j < run_len(s, stop) implies !stop(#[trigger] s[j]) by {
            if j > 0 {
                assert(s[j] == t[j - 1]);
            }
        }
        if run_len(s, stop) < s.len() {
            assert(s[run_len(s, stop) as int] == t[run_len(t, stop) as int]);
        }
    }
}

/// A position that no stopping character precedes, and that is the end of the
/// text or holds a stopping character, is where the run ends.
pub proof fn lemma_run_len_is(s: Seq<char>, stop: spec_fn(char) -> bool, n: int)
    requires
        0 <= n <= s.len(),
        forall|j: int| 0 <= j < n ==> !stop(#[trigger] s[j]),
        n == s.len() || stop(s[n]),
    ensures
        run_len(s, stop) == n,
    decreases s.len(),
{
    if n == 0 {
    } else {
        let t = s.skip(1);
        assert(!stop(s[0]));
        assert forall|j: int| 0 <= j < n - 1 implies !stop(#[trigger] t[j]) by {
            assert(t[j] == s[j + 1]);
        }
        if n < s.len() {
            assert(t[n - 1] == s[n]);
        }
        lemma_run_len_is(t, stop, n - 1);
    }
}

/// A run of characters without whitespace, ended by whitespace or by the end
/// of the text, is the first token of what starts with it.
proof fn lemma_words_cut(s: Seq<char>, from: int, to: int)
    requires
        0 <= from < to <= s.len(),
        forall|j: int| from <= j < to ==> !is_space(#[trigger] s[j]),
        to == s.len() || is_space(s[to]),
    ensures
        words(s.skip(from)) == seq![s.subrange(from, to)] + words(s.skip(to)),
{
    let t = s.skip(from);
    let n = to - from;
    assert forall|j: int| 0 <= j < n implies !spaces()(#[trigger] t[j]) by {
        assert(t[j] == s[from + j]);
    }
    if to < s.len() {
        assert(t[n] == s[to]);
    }
    lemma_run_len_is(t, spaces(), n);
    assert(t[0] == s[from]);
    assert(t.take(n) =~= s.subrange(from, to));
    assert(t.skip(n) =~= s.skip(to));
}

/// Whitespace in front of a text adds no token.
proof fn lemma_words_skip_space(s: Seq<char>, at: int)
    requires
        0 <= at < s.len(),
        is_space(s[at]),
    ensures
        words(s.skip(at)) == words(s.skip(at + 1)),
{
    let t = s.skip(at);
    assert(t[0] == s[at]);
    assert(t.skip(1) =~= s.skip(at + 1));
}

/// A run of characters without delimiter, ended by a delimiter, is the first
/// piece of what starts with it.
proof fn lemma_pieces_cut(s: Seq<char>, d: char, from: int, to: int)
    requires
        0 <= from <= to < s.len(),
        forall|j: int| from <= j < to ==> #[trigger] s[j] != d,
        s[to] == d,
    ensures
        pieces(s.skip(from), d) == seq![s.subrange(from, to)] + pieces(s.skip(to + 1), d),
{
    let t = s.skip(from);
    let n = to - from;
    assert forall|j: int| 0 <= j < n implies !only(d)(#[trigger] t[j]) by {
        assert(t[j] == s[from + j]);
    }
    assert(t[n] == s[to]);
    lemma_run_len_is(t, only(d), n);
    assert(t.take(n) =~= s.subrange(from, to));
    assert(t.skip(n + 1) =~= s.skip(to + 1));
}

/// What holds no delimiter is a single piece.
proof fn lemma_pieces_last(s: Seq<char>, d: char, from: int)
    requires
        0 <= from <= s.len(),
        forall|j: int| from <= j < s.len() ==> #[trigger] s[j] != d,
    ensures
        pieces(s.skip(from), d) == seq![s.subrange(from, s.len() as int)],
{
    let t = s.skip(from);
    assert forall|j: int| 0 <= j < t.len() implies !only(d)(#[trigger] t[j]) by {
        assert(t[j] == s[from + j]);
    }
    lemma_run_len_is(t, only(d), t.len() as int);
    assert(t =~= s.subrange(from, s.len() as int));
}

/// Tells whether `c` separates tokens.
pub fn is_space_char(c: char) -> (r: bool)
    ensures
        r == is_space(c),
{
    c == ' ' || c == '\t' || c == '\n' || c == '\u{c}' || c == '\r'
}

/// Cuts `text` into its tokens: its maximal runs of characters that are not
/// whitespace, in order.
pub fn split_words(text: &str) -> (r: Vec<String>)
    ensures
        texts(r@) == words(text@),
        forall|i: int| 0 <= i < r@.len() ==> is_solid(#[trigger] r@[i]@),
{
    proof {
        law_words_are_solid(text@);
    }
    let len: usize = text.unicode_len();
    let mut tokens: Vec<String> = Vec::new();
    let mut start: Option<usize> = None;
    let mut k: usize = 0;
    assert(text@.skip(0) =~= text@);
    assert(texts(tokens@) =~= Seq::<Seq<char>>::empty());
    for c in it: text.chars()
        invariant
            len == text@.len(),
            it.seq() == text@,
            k == it.index(),
            k <= len,
            start matches Some(b) ==> b < k && forall|j: int|
                b <= j < k ==> !is_space(#[trigger] text@[j]),
            words(text@) == texts(tokens@) + words(
                text@.skip(
                    match start {
                        Some(b) => b as int,
                        None => k as int,
                    },
                ),
            ),
    {
        if is_space_char(c) {
            if let Some(b) = start {
                let token = text.substring_char(b, k).to_owned();
                proof {
                    lemma_words_cut(text@, b as int, k as int);
                    assert(texts(tokens@.push(token)) =~= texts(tokens@) + seq![
                        text@.subrange(b as int, k as int),
                    ]);
                }
                tokens.push(token);
                start = None;
            }
            proof {
                lemma_words_skip_space(text@, k as int);
            }
        } else if start.is_none() {
            start = Some(k);
        }
        k = k + 1;
    }
    if let Some(b) = start {
        let token = text.substring_char(b, len).to_owned();
        proof {
            lemma_words_cut(text@, b as int, len as int);
            assert(texts(tokens@.push(token)) =~= texts(tokens@) + seq![
                text@.subrange(b as int, len as int),
            ]);
            assert(text@.skip(len as int) =~= Seq::<char>::empty());
        }
        tokens.push(token);
    } else {
        assert(text@.skip(len as int) =~= Seq::<char>::empty());
    }
    assert forall|i: int| 0 <= i < tokens@.len() implies is_solid(#[trigger] tokens@[i]@) by {
        assert(texts(tokens@)[i] == tokens@[i]@);
    }
    tokens
}

/// Cuts `text` at every occurrence of the delimiter `d`.
pub fn split(text: &str, d: char) -> (r: Vec<String>)
    ensures
        texts(r@) == pieces(text@, d),
{
    let len: usize = text.unicode_len();
    let mut parts: Vec<String> = Vec::new();
    let mut start: usize = 0;
    let mut k: usize = 0;
    assert(text@.skip(0) =~= text@);
    assert(texts(parts@) =~= Seq::<Seq<char>>::empty());
    for c in it: text.chars()
        invariant
            len == text@.len(),
            it.seq() == text@,
            k == it.index(),
            start <= k <= len,
            forall|j: int| start <= j < k ==> #[trigger] text@[j] != d,
            pieces(text@, d) == texts(parts@) + pieces(text@.skip(start as int), d),
    {
        if c == d {
            let part = text.substring_char(start, k).to_owned();
            proof {
                lemma_pieces_cut(text@, d, start as int, k as int);
                assert(texts(parts@.push(part)) =~= texts(parts@) + seq![
                    text@.subrange(start as int, k as int),
                ]);
            }
            parts.push(part);
            start = k + 1;
        }
        k = k + 1;
    }
    let part = text.substring_char(start, len).to_owned();
    proof {
        lemma_pieces_last(text@, d, start as int);
        assert(texts(parts@.push(part)) =~= texts(parts@) + seq![
            text@.subrange(start as int, len as int),
        ]);
    }
    parts.push(part);
    parts
}

/// Tokenizes one command into a stage.
///
/// Fails with `EmptyStage` exactly when the command holds no token.
pub fn tokenize_stage(command: &str) -> (r: Result<Stage, TokenizeError>)
    ensures
        match r {
            Ok(stage) => !is_blank(command@) && stage@ == words(command@),
            Err(e) => is_blank(command@) && e == TokenizeError::EmptyStage,
        },
{
    Stage::new(split_words(command))
}

/// Tokenizes a chain given as one command per element.
///
/// Fails with `EmptyPipeline` when there is no command, and with `EmptyStage`
/// when there are commands and one of them holds no token. Otherwise the
/// pipeline has one stage per command, in order.
pub fn tokenize_chain(commands: &Vec<String>) -> (r: Result<PipelineSpec, TokenizeError>)
    ensures
        match r {
            Ok(spec) => {
                &&& commands@.len() > 0
                &&& !has_blank(texts(commands@))
                &&& spec@ == stages_of(texts(commands@))
                &&& spec@.len() == commands@.len()
                &&& forall|i: int| 0 <= i < spec@.len() ==> (#[trigger] spec@[i]).len() >= 1
            },
            Err(e) => if commands@.len() == 0 {
                e == TokenizeError::EmptyPipeline
            } else {
                e == TokenizeError::EmptyStage && has_blank(texts(commands@))
            },
        },
{
    let mut stages: Vec<Stage> = Vec::new();
    let mut i: usize = 0;
    while i < commands.len()
        invariant
            i <= commands@.len(),
            stages@.len() == i,
            forall|j: int|
                0 <= j < i ==> (#[trigger] stages@[j])@ == words(commands@[j]@) && !is_blank(
                    commands@[j]@,
                ),
        decreases commands@.len() - i,
    {
        match tokenize_stage(commands[i].as_str()) {
            Ok(stage) => {
                stages.push(stage);
            },
            Err(e) => {
                assert(is_blank(texts(commands@)[i as int]));
                return Err(e);
            },
        }
        i = i + 1;
    }
    let r = PipelineSpec::new(stages);
    proof {
        if let Ok(spec) = &r {
            assert(spec@ =~= stages_of(texts(commands@)));
            assert forall|j: int| 0 <= j < texts(commands@).len() implies !is_blank(
                #[trigger] texts(commands@)[j],
            ) by {
                assert(stages@[j]@ == words(commands@[j]@));
            }
        }
    }
    r
}

/// Tokenizes a pipeline description: stages separated by `|`, tokens
/// separated by whitespace.
///
/// Fails with `EmptyPipeline` exactly when the description is empty, and with
/// `EmptyStage` exactly when it is not and one of its segments holds no
/// token. Otherwise the pipeline has one stage per segment, in order, each
/// with the tokens of its segment.
pub fn tokenize(raw: &str) -> (r: Result<PipelineSpec, TokenizeError>)
    ensures
        match r {
            Ok(spec) => {
                &&& raw@.len() > 0
                &&& !has_blank(segments(raw@))
                &&& spec@ == stages_of(segments(raw@))
                &&& spec@.len() == segments(raw@).len()
                &&& forall|i: int| 0 <= i < spec@.len() ==> (#[trigger] spec@[i]).len() >= 1
            },
            Err(e) => if raw@.len() == 0 {
                e == TokenizeError::EmptyPipeline
            } else {
                e == TokenizeError::EmptyStage && has_blank(segments(raw@))
            },
        },
{
    if raw.unicode_len() == 0 {
        return Err(TokenizeError::EmptyPipeline);
    }
    let parts = split(raw, '|');
    assert(texts(parts@).len() == parts@.len());
    tokenize_chain(&parts)
}

/// The number of occurrences of `d` in `s`.
pub open spec fn occurrences(s: Seq<char>, d: char) -> nat
    decreases s.len(),
{
    if s.len() == 0 {
        0
    } else {
        (if s[0] == d {
            1nat
        } else {
            0nat
        }) + occurrences(s.skip(1), d)
    }
}

/// Characters other than `d` in front of a text do not count.
proof fn lemma_occurrences_skip(s: Seq<char>, d: char, n: int)
    requires
        0 <= n <= s.len(),
        forall|j: int| 0 <= j < n ==> #[trigger] s[j] != d,
    ensures
        occurrences(s, d) == occurrences(s.skip(n), d),
    decreases n,
{
    if n == 0 {
        assert(s.skip(0) =~= s);
    } else {
        let t = s.skip(1);
        assert forall|j: int| 0 <= j < n - 1 implies #[trigger] t[j] != d by {
            assert(t[j] == s[j + 1]);
        }
        lemma_occurrences_skip(t, d, n - 1);
        assert(t.skip(n - 1) =~= s.skip(n));
    }
}

/// A text with `n` delimiters has `n + 1` pieces.
pub proof fn law_pieces_count(s: Seq<char>, d: char)
    ensures
        pieces(s, d).len() == occurrences(s, d) + 1,
    decreases s.len(),
{
    let n = run_len(s, only(d)) as int;
    lemma_run_len(s, only(d));
    assert forall|j: int| 0 <= j < n implies #[trigger] s[j] != d by {
        assert(!only(d)(s[j]));
    }
    lemma_occurrences_skip(s, d, n);
    if n >= s.len() {
        assert(s.skip(n).len() == 0);
    } else {
        let t = s.skip(n);
        assert(t[0] == s[n]);
        assert(only(d)(s[n]));
        assert(t.skip(1) =~= s.skip(n + 1));
        law_pieces_count(s.skip(n + 1), d);
    }
}

/// A text without delimiter is its own single piece.
pub proof fn law_pieces_of_plain(s: Seq<char>, d: char)
    requires
        forall|j: int| 0 <= j < s.len() ==> #[trigger] s[j] != d,
    ensures
        pieces(s, d) == seq![s],
{
    assert(s.skip(0) =~= s);
    lemma_pieces_last(s, d, 0);
    assert(s.subrange(0, s.len() as int) =~= s);
}

/// The pieces of two texts joined by a delimiter are the pieces of the one
/// followed by the pieces of the other.
pub proof fn law_pieces_split(x: Seq<char>, d: char, y: Seq<char>)
    ensures
        pieces(x + seq![d] + y, d) == pieces(x, d) + pieces(y, d),
    decreases x.len(),
{
    let s = x + seq![d] + y;
    let n = run_len(x, only(d)) as int;
    lemma_run_len(x, only(d));
    assert forall|j: int| 0 <= j < n implies !only(d)(#[trigger] s[j]) by {
        assert(s[j] == x[j]);
    }
    if n < x.len() {
        assert(s[n] == x[n]);
    } else {
        assert(s[n] == d);
    }
    lemma_run_len_is(s, only(d), n);
    assert(s.take(n) =~= x.take(n));
    if n >= x.len() {
        assert(x.take(n) =~= x);
        assert(s.skip(n + 1) =~= y);
        assert(pieces(s, d) =~= pieces(x, d) + pieces(y, d));
    } else {
        let rest = x.skip(n + 1);
        assert(s.skip(n + 1) =~= rest + seq![d] + y);
        law_pieces_split(rest, d, y);
        assert(pieces(s, d) =~= pieces(x, d) + pieces(y, d));
    }
}

/// A text without whitespace that is not empty is its own single token.
pub proof fn law_words_of_solid(s: Seq<char>)
    requires
        s.len() > 0,
        forall|j: int| 0 <= j < s.len() ==> !is_space(#[trigger] s[j]),
    ensures
        words(s) == seq![s],
{
    assert(s.skip(0) =~= s);
    lemma_words_cut(s, 0, s.len() as int);
    assert(s.subrange(0, s.len() as int) =~= s);
    assert(s.skip(s.len() as int).len() == 0);
    assert(words(s) =~= seq![s]);
}

/// The tokens of two texts joined by a whitespace character are the tokens
/// of the one followed by the tokens of the other.
pub proof fn law_words_split(x: Seq<char>, c: char, y: Seq<char>)
    requires
        is_space(c),
    ensures
        words(x + seq![c] + y) == words(x) + words(y),
    decreases x.len(),
{
    let s = x + seq![c] + y;
    if x.len() == 0 {
        assert(s[0] == c);
        assert(s.skip(1) =~= y);
        assert(words(x) + words(y) =~= words(y));
    } else if is_space(x[0]) {
        assert(s[0] == x[0]);
        assert(s.skip(1) =~= x.skip(1) + seq![c] + y);
        law_words_split(x.skip(1), c, y);
    } else {
        let n = run_len(x, spaces()) as int;
        lemma_run_len(x, spaces());
        assert forall|j: int| 0 <= j < n implies !spaces()(#[trigger] s[j]) by {
            assert(s[j] == x[j]);
        }
        if n < x.len() {
            assert(s[n] == x[n]);
        } else {
            assert(s[n] == c);
        }
        lemma_run_len_is(s, spaces(), n);
        assert(s[0] == x[0]);
        assert(s.take(n) =~= x.take(n));
        assert(s.skip(n) =~= x.skip(n) + seq![c] + y);
        law_words_split(x.skip(n), c, y);
        assert(words(s) =~= words(x) + words(y));
    }
}

/// A token: at least one character and no whitespace.
pub open spec fn is_solid(w: Seq<char>) -> bool {
    w.len() > 0 && forall|j: int| 0 <= j < w.len() ==> !is_space(#[trigger] w[j])
}

/// Every token holds at least one character and no whitespace.
pub proof fn law_words_are_solid(s: Seq<char>)
    ensures
        forall|i: int| 0 <= i < words(s).len() ==> is_solid(#[trigger] words(s)[i]),
    decreases s.len(),
{
    if s.len() == 0 {
        assert(words(s).len() == 0);
    } else if is_space(s[0]) {
        law_words_are_solid(s.skip(1));
        assert(words(s) == words(s.skip(1)));
    } else {
        let n = run_len(s, spaces()) as int;
        lemma_run_len(s, spaces());
        law_words_are_solid(s.skip(n));
        let rest = words(s.skip(n));
        assert(words(s) == seq![s.take(n)] + rest);
        assert forall|i: int| 0 <= i < words(s).len() implies is_solid(#[trigger] words(s)[i]) by {
            if i == 0 {
                assert(words(s)[0] == s.take(n));
                assert forall|j: int| 0 <= j < s.take(n).len() implies !is_space(
                    #[trigger] s.take(n)[j],
                ) by {
                    assert(!spaces()(s[j]));
                }
            } else {
                assert(words(s)[i] == rest[i - 1]);
            }
        }
    }
}

/// A command holds no token exactly when it is made of whitespace alone.
pub proof fn law_blank_is_all_space(s: Seq<char>)
    ensures
        is_blank(s) <==> forall|j: int| 0 <= j < s.len() ==> is_space(#[trigger] s[j]),
    decreases s.len(),
{
    if s.len() == 0 {
    } else if is_space(s[0]) {
        let t = s.skip(1);
        law_blank_is_all_space(t);
        if is_blank(s) {
            assert forall|j: int| 0 <= j < s.len() implies is_space(#[trigger] s[j]) by {
                if j > 0 {
                    assert(s[j] == t[j - 1]);
                }
            }
        } else {
            let j = choose|j: int| 0 <= j < t.len() && !is_space(#[trigger] t[j]);
            assert(s[j + 1] == t[j]);
        }
    } else {
        lemma_run_len(s, spaces());
    }
}

/// A pipeline description that is accepted has one stage for each of its
/// pipe-delimited segments, one more than it has pipes, and each stage has
/// at least one token.
pub proof fn law_one_stage_per_segment(raw: Seq<char>)
    requires
        raw.len() > 0,
        !has_blank(segments(raw)),
    ensures
        stages_of(segments(raw)).len() == segments(raw).len(),
        segments(raw).len() == occurrences(raw, '|') + 1,
        forall|i: int|
            0 <= i < stages_of(segments(raw)).len() ==> (#[trigger] stages_of(
                segments(raw),
            )[i]).len() >= 1,
{
    law_pieces_count(raw, '|');
    assert forall|i: int| 0 <= i < stages_of(segments(raw)).len() implies (#[trigger] stages_of(
        segments(raw),
    )[i]).len() >= 1 by {
        assert(!is_blank(segments(raw)[i]));
    }
}

} // verus!
