//! How text enters the full-text index and how keywords are looked up in it.
use vstd::prelude::*;

use crate::text::{chars_of, concat, join, string_of};

verus! {

/// Whether `c` lies in the block of Han characters that is indexed one
/// character at a time.
pub open spec fn is_han(c: char) -> bool {
    '\u{3400}' <= c && c <= '\u{9fff}'
}

/// One character as it is indexed: a Han character stands between spaces.
pub open spec fn spaced(c: char) -> Seq<char> {
    if is_han(c) {
        seq![' ', c, ' ']
    } else {
        seq![c]
    }
}

/// A text as it is indexed.
pub open spec fn tokenized(s: Seq<char>) -> Seq<char>
    decreases s.len(),
{
    if s.len() == 0 {
        Seq::empty()
    } else {
        tokenized(s.drop_last()) + spaced(s.last())
    }
}

/// A text as it is indexed: every Han character is set off by spaces, so that
/// the tokenizer takes it for a word of its own.
pub fn tokens(s: &str) -> (r: String)
    ensures
        r@ == tokenized(s@),
{
    let v = chars_of(s);
    let mut out = String::new();
    let mut i: usize = 0;
    while i < v.len()
        invariant
            v@ == s@,
            i <= v@.len(),
            out@ == tokenized(s@.take(i as int)),
        decreases v@.len() - i,
    {
        let ghost before = out@;
        let c: char = v[i];
        if '\u{3400}' <= c && c <= '\u{9fff}' {
            out.push(' ');
            out.push(c);
            out.push(' ');
        } else {
            out.push(c);
        }
        assert(s@.take(i + 1).drop_last() =~= s@.take(i as int));
        assert(out@ =~= before + spaced(c));
        i = i + 1;
    }
    assert(s@.take(s@.len() as int) =~= s@);
    out
}

// ---------------------------------------------------------------- trimming

/// The text without the whitespace that it begins with.
pub open spec fn trimmed_start(s: Seq<char>) -> Seq<char>
    decreases s.len(),
{
    if s.len() > 0 && crate::text::is_space(s[0]) {
        trimmed_start(s.skip(1))
    } else {
        s
    }
}

/// The text without the whitespace that it ends with.
pub open spec fn trimmed_end(s: Seq<char>) -> Seq<char>
    decreases s.len(),
{
    if s.len() > 0 && crate::text::is_space(s.last()) {
        trimmed_end(s.drop_last())
    } else {
        s
    }
}

/// The text without the whitespace around it.
pub open spec fn trimmed(s: Seq<char>) -> Seq<char> {
    trimmed_end(trimmed_start(s))
}

/// The text without the whitespace around it.
pub fn trim(s: &str) -> (r: String)
    ensures
        r@ == trimmed(s@),
{
    let v = chars_of(s);
    let mut i: usize = 0;
    assert(s@.skip(0) =~= s@);
    while i < v.len() && v[i].is_whitespace()
        invariant
            v@ == s@,
            i <= v@.len(),
            trimmed_start(s@) == trimmed_start(s@.skip(i as int)),
        decreases v@.len() - i,
    {
        assert(s@.skip(i as int).skip(1) =~= s@.skip(i + 1));
        i = i + 1;
    }
    let ghost rest = s@.skip(i as int);
    assert(trimmed_start(s@) == rest);
    let mut j: usize = v.len();
    assert(s@.subrange(i as int, j as int) =~= rest);
    while j > i && v[j - 1].is_whitespace()
        invariant
            v@ == s@,
            i <= j <= v@.len(),
            trimmed_end(rest) == trimmed_end(s@.subrange(i as int, j as int)),
        decreases j,
    {
        assert(s@.subrange(i as int, j as int).drop_last() =~= s@.subrange(i as int, j - 1));
        j = j - 1;
    }
    string_of(&v, i, j)
}

// ------------------------------------------------------------------- words

/// The length of the run of characters other than whitespace that `s` begins
/// with.
pub open spec fn run_length(s: Seq<char>) -> nat
    decreases s.len(),
{
    if s.len() == 0 || crate::text::is_space(s[0]) {
        0
    } else {
        1 + run_length(s.skip(1))
    }
}

/// A run is no longer than the text it begins.
pub proof fn lemma_run_length_bound(s: Seq<char>)
    ensures
        run_length(s) <= s.len(),
    decreases s.len(),
{
    if s.len() > 0 && !crate::text::is_space(s[0]) {
        lemma_run_length_bound(s.skip(1));
    }
}

/// The words of `s`: its longest runs of characters other than whitespace.
pub open spec fn words(s: Seq<char>) -> Seq<Seq<char>>
    decreases s.len(),
{
    if s.len() == 0 {
        Seq::empty()
    } else if crate::text::is_space(s[0]) {
        words(s.skip(1))
    } else {
        proof {
            lemma_run_length_bound(s);
        }
        seq![s.take(run_length(s) as int)] + words(s.skip(run_length(s) as int))
    }
}

/// The text with every double quote written twice.
pub open spec fn quotes_doubled(s: Seq<char>) -> Seq<char>
    decreases s.len(),
{
    if s.len() == 0 {
        Seq::empty()
    } else if s.last() == '"' {
        quotes_doubled(s.drop_last()).push('"').push('"')
    } else {
        quotes_doubled(s.drop_last()).push(s.last())
    }
}

fn double_quotes(s: &str) -> (r: String)
    ensures
        r@ == quotes_doubled(s@),
{
    let v = chars_of(s);
    let mut out = String::new();
    let mut i: usize = 0;
    while i < v.len()
        invariant
            v@ == s@,
            i <= v@.len(),
            out@ == quotes_doubled(s@.take(i as int)),
        decreases v@.len() - i,
    {
        assert(s@.take(i + 1).drop_last() =~= s@.take(i as int));
        if v[i] == '"' {
            out.push('"');
        }
        out.push(v[i]);
        i = i + 1;
    }
    assert(s@.take(s@.len() as int) =~= s@);
    out
}

/// One word as a quoted phrase of the full-text query language.
pub open spec fn phrase(word: Seq<char>) -> Seq<char> {
    "\""@ + quotes_doubled(trimmed(tokenized(word))) + "\""@
}

/// The full-text query that a keyword stands for: all its words, each as a
/// phrase.
pub open spec fn full_text_query(s: Seq<char>) -> Seq<char> {
    crate::text::joined(words(s).map_values(|w: Seq<char>| phrase(w)), " AND "@)
}

fn quoted_phrase(word: &str) -> (r: String)
    ensures
        r@ == phrase(word@),
{
    let spaced_out = tokens(word);
    let core = trim(spaced_out.as_str());
    let body = double_quotes(core.as_str());
    let open = concat("\"", body.as_str());
    concat(open.as_str(), "\"")
}

/// The full-text query that a keyword stands for. Every word becomes a quoted
/// phrase, so that nothing in the keyword is read as an operator.
pub fn match_query(s: &str) -> (r: String)
    ensures
        r@ == full_text_query(s@),
{
    let v = chars_of(s);
    let mut parts: Vec<String> = Vec::new();
    let mut i: usize = 0;
    let ghost done: Seq<Seq<char>> = Seq::empty();
    let ghost f = |w: Seq<char>| phrase(w);
    assert(s@.skip(0) =~= s@);
    assert(done + words(s@) =~= words(s@));
    while i < v.len()
        invariant
            v@ == s@,
            i <= v@.len(),
            words(s@) == done + words(s@.skip(i as int)),
            parts@.len() == done.len(),
            forall|k: int| 0 <= k < done.len() ==> (#[trigger] parts@[k])@ == phrase(done[k]),
        decreases v@.len() - i,
    {
        let ghost rest = s@.skip(i as int);
        if v[i].is_whitespace() {
            assert(rest.skip(1) =~= s@.skip(i + 1));
            i = i + 1;
        } else {
            let mut j: usize = i;
            while j < v.len() && !v[j].is_whitespace()
                invariant
                    v@ == s@,
                    i <= j <= v@.len(),
                    rest == s@.skip(i as int),
                    run_length(rest) == (j - i) + run_length(s@.skip(j as int)),
                decreases v@.len() - j,
            {
                assert(s@.skip(j as int).skip(1) =~= s@.skip(j + 1));
                j = j + 1;
            }
            assert(run_length(rest) == j - i);
            assert(run_length(rest) > 0);
            let word = string_of(&v, i, j);
            assert(word@ =~= rest.take(j - i));
            assert(rest.skip(j - i) =~= s@.skip(j as int));
            parts.push(quoted_phrase(word.as_str()));
            proof {
                let w = rest.take(j - i);
                assert(words(rest) == seq![w] + words(s@.skip(j as int)));
                assert(done + (seq![w] + words(s@.skip(j as int))) =~= done.push(w) + words(
                    s@.skip(j as int),
                ));
                done = done.push(w);
            }
            i = j;
        }
    }
    assert(words(s@.skip(i as int)) =~= Seq::empty());
    assert(words(s@) =~= done);
    assert(crate::text::texts_view(parts@) =~= words(s@).map_values(f));
    join(&parts, " AND ")
}

/// Every Han character of an indexed text stands between spaces: the index
/// holds no two of them in one word.
pub proof fn law_han_characters_stand_alone(s: Seq<char>, i: int)
    requires
        0 <= i < tokenized(s).len(),
        is_han(tokenized(s)[i]),
    ensures
        0 < i < tokenized(s).len() - 1,
        tokenized(s)[i - 1] == ' ',
        tokenized(s)[i + 1] == ' ',
    decreases s.len(),
{
    let head = tokenized(s.drop_last());
    if i < head.len() {
        law_han_characters_stand_alone(s.drop_last(), i);
    }
}

// -------------------------------------------------------------------- laws

/// Indexing goes character by character: what a text is indexed as follows from
/// its parts, and a single character stands as it is unless it is a Han
/// character, one from U+3400 to U+9FFF, which stands between spaces.
pub proof fn law_indexing_goes_by_characters(s: Seq<char>, t: Seq<char>, c: char)
    ensures
        tokenized(s + t) == tokenized(s) + tokenized(t),
        tokenized(Seq::empty()) == Seq::<char>::empty(),
        tokenized(seq![c]) == if 0x3400 <= c as int <= 0x9fff {
            seq![' ', c, ' ']
        } else {
            seq![c]
        },
    decreases t.len(),
{
    reveal_with_fuel(tokenized, 2);
    assert(seq![c].drop_last() =~= Seq::empty());
    assert(tokenized(seq![c]) =~= spaced(c));
    if t.len() == 0 {
        assert(s + t =~= s);
        assert(tokenized(s) + tokenized(t) =~= tokenized(s));
    } else {
        law_indexing_goes_by_characters(s, t.drop_last(), c);
        assert((s + t).drop_last() =~= s + t.drop_last());
        assert(tokenized(s + t) =~= tokenized(s) + tokenized(t));
    }
}

/// A text that stands in another is indexed as part of it: whoever looks for a
/// piece of a message as it is indexed finds it in the message as it is
/// indexed.
pub proof fn law_indexing_keeps_pieces(s: Seq<char>, piece: Seq<char>)
    requires
        crate::text::occurs(s, piece),
    ensures
        crate::text::occurs(tokenized(s), tokenized(piece)),
{
    let i = choose|i: int| crate::text::occurs_at(s, piece, i);
    let head = s.take(i);
    let tail = s.skip(i + piece.len());
    assert(s =~= head + piece + tail);
    law_indexing_goes_by_characters(head + piece, tail, ' ');
    law_indexing_goes_by_characters(head, piece, ' ');
    let at = tokenized(head).len() as int;
    assert(tokenized(s).subrange(at, at + tokenized(piece).len()) =~= tokenized(piece));
    assert(crate::text::occurs_at(tokenized(s), tokenized(piece), at));
}

/// Whether every character of a text is whitespace.
pub open spec fn is_blank(s: Seq<char>) -> bool {
    forall|i: int| 0 <= i < s.len() ==> crate::text::is_space(#[trigger] s[i])
}

proof fn lemma_trimmed_start(s: Seq<char>) -> (n: int)
    ensures
        0 <= n <= s.len(),
        trimmed_start(s) == s.skip(n),
        is_blank(s.take(n)),
        n < s.len() ==> !crate::text::is_space(s[n]),
    decreases s.len(),
{
    if s.len() > 0 && crate::text::is_space(s[0]) {
        let n = lemma_trimmed_start(s.skip(1));
        assert(s.skip(1).skip(n) =~= s.skip(n + 1));
        assert forall|i: int| 0 <= i < n + 1 implies crate::text::is_space(
            #[trigger] s.take(n + 1)[i],
        ) by {
            if i > 0 {
                assert(s.take(n + 1)[i] == s.skip(1).take(n)[i - 1]);
            }
        }
        n + 1
    } else {
        assert(s.skip(0) =~= s);
        0
    }
}

proof fn lemma_trimmed_end(s: Seq<char>) -> (n: int)
    ensures
        0 <= n <= s.len(),
        trimmed_end(s) == s.take(n),
        is_blank(s.skip(n)),
        n > 0 ==> !crate::text::is_space(s[n - 1]),
    decreases s.len(),
{
    if s.len() > 0 && crate::text::is_space(s.last()) {
        let n = lemma_trimmed_end(s.drop_last());
        assert(s.drop_last().take(n) =~= s.take(n));
        assert forall|i: int| 0 <= i < s.len() - n implies crate::text::is_space(
            #[trigger] s.skip(n)[i],
        ) by {
            if i < s.len() - n - 1 {
                assert(s.skip(n)[i] == s.drop_last().skip(n)[i]);
            }
        }
        n
    } else {
        assert(s.take(s.len() as int) =~= s);
        s.len() as int
    }
}

/// Trimming takes away whitespace at both ends, all of it and nothing else.
pub proof fn law_trimming_takes_whitespace_only(s: Seq<char>)
    ensures
        exists|head: Seq<char>, tail: Seq<char>|
            is_blank(head) && is_blank(tail) && s == #[trigger] (head + trimmed(s) + tail),
        trimmed(s).len() > 0 ==> !crate::text::is_space(trimmed(s)[0]) && !crate::text::is_space(
            trimmed(s).last(),
        ),
{
    let n = lemma_trimmed_start(s);
    let rest = s.skip(n);
    let k = lemma_trimmed_end(rest);
    assert(s =~= s.take(n) + trimmed(s) + rest.skip(k));
}

/// The text with every pair of double quotes written once.
pub open spec fn quotes_halved(s: Seq<char>) -> Seq<char>
    decreases s.len(),
{
    if s.len() == 0 {
        Seq::empty()
    } else if s.len() > 1 && s.last() == '"' {
        quotes_halved(s.take(s.len() - 2)).push('"')
    } else {
        quotes_halved(s.drop_last()).push(s.last())
    }
}

/// Doubling quotes loses nothing: writing each pair once brings the text back.
/// It goes character by character, and touches no other character.
pub proof fn law_doubled_quotes_come_back(s: Seq<char>, c: char)
    ensures
        quotes_halved(quotes_doubled(s)) == s,
        quotes_doubled(s.push(c)) == if c == '"' {
            quotes_doubled(s) + seq!['"', '"']
        } else {
            quotes_doubled(s) + seq![c]
        },
    decreases s.len(),
{
    assert(s.push(c).drop_last() =~= s);
    assert(quotes_doubled(s.push(c)) =~= if c == '"' {
        quotes_doubled(s) + seq!['"', '"']
    } else {
        quotes_doubled(s) + seq![c]
    });
    if s.len() > 0 {
        let d = quotes_doubled(s.drop_last());
        law_doubled_quotes_come_back(s.drop_last(), c);
        if s.last() == '"' {
            assert(quotes_doubled(s).take(quotes_doubled(s).len() - 2) =~= d);
        } else {
            assert(quotes_doubled(s).drop_last() =~= d);
        }
        assert(s =~= s.drop_last().push(s.last()));
    }
}

/// Whether the characters from `i` up to `j` are a word: a run of characters
/// other than whitespace that whitespace or an end of the text bounds on both
/// sides.
pub open spec fn is_word(s: Seq<char>, i: int, j: int) -> bool {
    &&& 0 <= i < j <= s.len()
    &&& forall|k: int| i <= k < j ==> !crate::text::is_space(#[trigger] s[k])
    &&& i == 0 || crate::text::is_space(s[i - 1])
    &&& j == s.len() || crate::text::is_space(s[j])
}

/// Whether these places, each from where to where, are those of the words of a
/// text: of all of them and of no others, in order.
pub open spec fn are_the_words(s: Seq<char>, places: Seq<(int, int)>) -> bool {
    &&& forall|k: int|
        0 <= k < places.len() ==> is_word(s, (#[trigger] places[k]).0, places[k].1)
    &&& forall|k: int, l: int|
        0 <= k < l < places.len() ==> (#[trigger] places[k]).1 < (#[trigger] places[l]).0
    &&& forall|i: int, j: int| #[trigger] is_word(s, i, j) ==> places.contains((i, j))
}

/// One piece of a text as a quoted phrase: as it is indexed, without the spaces
/// around it, every quote in it written twice.
pub open spec fn quoted(s: Seq<char>, place: (int, int)) -> Seq<char> {
    seq!['"'] + quotes_doubled(trimmed(tokenized(s.subrange(place.0, place.1)))) + seq!['"']
}

proof fn lemma_run_is_longest(s: Seq<char>)
    ensures
        run_length(s) <= s.len(),
        forall|k: int| 0 <= k < run_length(s) ==> !crate::text::is_space(#[trigger] s[k]),
        run_length(s) == s.len() || crate::text::is_space(s[run_length(s) as int]),
    decreases s.len(),
{
    if s.len() > 0 && !crate::text::is_space(s[0]) {
        lemma_run_is_longest(s.skip(1));
        assert forall|k: int| 0 <= k < run_length(s) implies !crate::text::is_space(
            #[trigger] s[k],
        ) by {
            if k > 0 {
                assert(s[k] == s.skip(1)[k - 1]);
            }
        }
    }
}

/// The places, each moved on by `n`.
spec fn moved_on(places: Seq<(int, int)>, n: int) -> Seq<(int, int)> {
    Seq::new(places.len(), |k: int| (places[k].0 + n, places[k].1 + n))
}

proof fn lemma_words_behind(s: Seq<char>, n: int, rest: Seq<(int, int)>)
    requires
        0 < n <= s.len(),
        crate::text::is_space(s[n - 1]) || n == s.len() || crate::text::is_space(s[n]),
        are_the_words(s.skip(n), rest),
    ensures
        forall|k: int|
            0 <= k < rest.len() ==> is_word(
                s,
                (#[trigger] moved_on(rest, n)[k]).0,
                moved_on(rest, n)[k].1,
            ),
        forall|i: int, j: int|
            n <= i && #[trigger] is_word(s, i, j) ==> moved_on(rest, n).contains((i, j)),
{
    let t = s.skip(n);
    assert forall|k: int| 0 <= k < rest.len() implies is_word(
        s,
        (#[trigger] moved_on(rest, n)[k]).0,
        moved_on(rest, n)[k].1,
    ) by {
        let (i, j) = rest[k];
        assert(is_word(t, i, j));
        assert forall|l: int| i + n <= l < j + n implies !crate::text::is_space(#[trigger] s[l]) by {
            assert(s[l] == t[l - n]);
        }
        if i == 0 {
            assert(!crate::text::is_space(t[0]));
        } else {
            assert(t[i - 1] == s[i + n - 1]);
        }
        if j < t.len() {
            assert(t[j] == s[j + n]);
        }
    }
    assert forall|i: int, j: int| n <= i && #[trigger] is_word(s, i, j) implies moved_on(
        rest,
        n,
    ).contains((i, j)) by {
        assert forall|l: int| i - n <= l < j - n implies !crate::text::is_space(#[trigger] t[l]) by {
            assert(t[l] == s[l + n]);
        }
        if i > n {
            assert(t[i - n - 1] == s[i - 1]);
        }
        assert(is_word(t, i - n, j - n));
        let k = choose|k: int| 0 <= k < rest.len() && rest[k] == (i - n, j - n);
        assert(moved_on(rest, n)[k] == (i, j));
    }
}

proof fn lemma_words_are_found(s: Seq<char>) -> (places: Seq<(int, int)>)
    ensures
        are_the_words(s, places),
        words(s) == Seq::new(
            places.len(),
            |k: int| s.subrange(places[k].0, places[k].1),
        ),
    decreases s.len(),
{
    if s.len() == 0 {
        let places = Seq::<(int, int)>::empty();
        assert(words(s) =~= Seq::new(places.len(), |k: int| s.subrange(places[k].0, places[k].1)));
        places
    } else if crate::text::is_space(s[0]) {
        let rest = lemma_words_are_found(s.skip(1));
        let places = moved_on(rest, 1);
        lemma_words_behind(s, 1, rest);
        assert forall|i: int, j: int| #[trigger] is_word(s, i, j) implies places.contains(
            (i, j),
        ) by {
            assert(i != 0);
        }
        assert forall|k: int| 0 <= k < places.len() implies s.skip(1).subrange(
            rest[k].0,
            rest[k].1,
        ) == s.subrange((#[trigger] places[k]).0, places[k].1) by {
            assert(is_word(s.skip(1), rest[k].0, rest[k].1));
            assert(s.skip(1).subrange(rest[k].0, rest[k].1) =~= s.subrange(
                places[k].0,
                places[k].1,
            ));
        }
        assert(words(s) =~= Seq::new(places.len(), |k: int| s.subrange(places[k].0, places[k].1)));
        places
    } else {
        let n = run_length(s) as int;
        lemma_run_is_longest(s);
        let rest = lemma_words_are_found(s.skip(n));
        let places = seq![(0int, n)] + moved_on(rest, n);
        lemma_words_behind(s, n, rest);
        assert(is_word(s, 0, n));
        assert forall|k: int| 0 <= k < places.len() implies is_word(
            s,
            (#[trigger] places[k]).0,
            places[k].1,
        ) by {
            if k > 0 {
                assert(places[k] == moved_on(rest, n)[k - 1]);
            }
        }
        assert forall|k: int, l: int| 0 <= k < l < places.len() implies (#[trigger] places[k]).1 < (
        #[trigger] places[l]).0 by {
            assert(places[l] == moved_on(rest, n)[l - 1]);
            assert(is_word(s.skip(n), rest[l - 1].0, rest[l - 1].1));
            if k == 0 {
                if rest[l - 1].0 == 0 {
                    assert(!crate::text::is_space(s.skip(n)[0]));
                }
            } else {
                assert(places[k] == moved_on(rest, n)[k - 1]);
            }
        }
        assert forall|i: int, j: int| #[trigger] is_word(s, i, j) implies places.contains(
            (i, j),
        ) by {
            if i < n {
                if i > 0 {
                    assert(!crate::text::is_space(s[i - 1]));
                }
                if j < n {
                    assert(!crate::text::is_space(s[j]));
                }
                if n < j {
                    assert(!crate::text::is_space(s[n]));
                }
                assert(places[0] == (i, j));
            } else {
                let k = choose|k: int|
                    0 <= k < moved_on(rest, n).len() && moved_on(rest, n)[k] == (i, j);
                assert(places[k + 1] == (i, j));
            }
        }
        let shown = Seq::new(places.len(), |k: int| s.subrange(places[k].0, places[k].1));
        assert forall|k: int| 0 <= k < places.len() implies words(s)[k] == #[trigger] shown[k] by {
            if k == 0 {
                assert(s.take(n) =~= s.subrange(0, n));
            } else {
                assert(places[k] == moved_on(rest, n)[k - 1]);
                assert(is_word(s.skip(n), rest[k - 1].0, rest[k - 1].1));
                assert(s.skip(n).subrange(rest[k - 1].0, rest[k - 1].1) =~= s.subrange(
                    places[k].0,
                    places[k].1,
                ));
            }
        }
        assert(words(s) =~= shown);
        places
    }
}

/// A keyword is looked up word by word: the query holds one quoted phrase for
/// each word of the keyword, all of them and no others, in the order in which
/// they stand there, and asks that every one of them is found.
pub proof fn law_every_word_is_looked_up(s: Seq<char>)
    ensures
        exists|places: Seq<(int, int)>| #[trigger]
            are_the_words(s, places) && full_text_query(s) == crate::text::joined(
                Seq::new(places.len(), |k: int| quoted(s, places[k])),
                " AND "@,
            ),
{
    reveal_strlit("\"");
    assert("\""@ =~= seq!['"']);
    let places = lemma_words_are_found(s);
    assert(words(s).map_values(|w: Seq<char>| phrase(w)) =~= Seq::new(
        places.len(),
        |k: int| quoted(s, places[k]),
    ));
}

/// Where there is no word in a keyword, nothing is looked up; where there is
/// one, something is.
pub proof fn law_blank_keywords_ask_nothing(s: Seq<char>)
    ensures
        trimmed(s).len() == 0 <==> is_blank(s),
        is_blank(s) ==> full_text_query(s) == Seq::<char>::empty(),
{
    let n = lemma_trimmed_start(s);
    let rest = s.skip(n);
    let k = lemma_trimmed_end(rest);
    if trimmed(s).len() == 0 {
        assert(s =~= s.take(n) + rest.skip(k));
    }
    if is_blank(s) && trimmed(s).len() > 0 {
        assert(trimmed(s)[0] == s[n]);
    }
    if is_blank(s) {
        let places = lemma_words_are_found(s);
        if places.len() > 0 {
            assert(is_word(s, places[0].0, places[0].1));
            assert(!crate::text::is_space(s[places[0].0]));
        }
        assert(words(s).map_values(|w: Seq<char>| phrase(w)) =~= Seq::empty());
    }
}

} // verus!
