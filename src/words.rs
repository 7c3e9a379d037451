//! Turning a line of text, or words given one by one, into a query of ASCII
//! words.

use ascii::IntoAsciiString;
use vstd::prelude::*;
use vstd::string::StrSliceExecFns;

verus! {

/// The character that separates the words of an input line.
pub open spec fn is_separator(c: char) -> bool {
    c == ' '
}

/// Every character of `s` is an ASCII character.
pub open spec fn is_ascii_text(s: Seq<char>) -> bool {
    forall|i: int| 0 <= i < s.len() ==> (#[trigger] s[i] as u32) < 128
}

/// Every word of `ws` is ASCII text.
pub open spec fn all_ascii(ws: Seq<Seq<char>>) -> bool {
    forall|i: int| 0 <= i < ws.len() ==> is_ascii_text(#[trigger] ws[i])
}

/// The words of `s`, cut at each single space; two spaces in a row leave an
/// empty word between them, so there is always one word more than spaces.
pub open spec fn split_spaces(s: Seq<char>) -> Seq<Seq<char>>
    decreases s.len(),
{
    if s.len() == 0 {
        seq![Seq::empty()]
    } else {
        let init = split_spaces(s.drop_last());
        if is_separator(s.last()) {
            init.push(Seq::empty())
        } else {
            init.update(init.len() - 1, init.last().push(s.last()))
        }
    }
}

/// The words of `ws` with one space between each two of them.
pub open spec fn join_spaces(ws: Seq<Seq<char>>) -> Seq<char>
    decreases ws.len(),
{
    if ws.len() == 0 {
        Seq::empty()
    } else if ws.len() == 1 {
        ws[0]
    } else {
        join_spaces(ws.drop_last()) + seq![' '] + ws.last()
    }
}

/// The views of a vector of strings.
pub open spec fn views(v: Seq<String>) -> Seq<Seq<char>> {
    v.map_values(|s: String| s@)
}

/// A query: a non-empty, ordered sequence of ASCII words.
pub struct Query {
    pub words: Vec<String>,
}

impl Query {
    /// The words of the query.
    pub open spec fn view(&self) -> Seq<Seq<char>> {
        views(self.words@)
    }

    /// A query holds at least one word, and only ASCII words.
    pub open spec fn wf(&self) -> bool {
        &&& self.words@.len() > 0
        &&& all_ascii(self@)
    }
}

/// Why a query could not be made of the given words.
#[derive(Debug, PartialEq, Eq, Structural, Clone, Copy)]
pub enum ValidationError {
    /// There were no words at all.
    Empty,
    /// The word at this position holds a character that is not ASCII.
    NotAscii(usize),
}

/// The position of the first word of `ws` that is not ASCII text.
pub open spec fn first_non_ascii(ws: Seq<Seq<char>>, k: int) -> bool {
    &&& 0 <= k < ws.len()
    &&& !is_ascii_text(ws[k])
    &&& all_ascii(ws.take(k))
}

/// What making a query of the words `ws` gives.
pub open spec fn validated(ws: Seq<Seq<char>>, r: Result<Query, ValidationError>) -> bool {
    match r {
        Ok(q) => q.wf() && all_ascii(ws) && ws.len() > 0 && q@ == ws,
        Err(ValidationError::Empty) => ws.len() == 0,
        Err(ValidationError::NotAscii(k)) => ws.len() > 0 && first_non_ascii(ws, k as int),
    }
}

/// Relies on ascii's `IntoAsciiString for &str`: the conversion succeeds exactly
/// when every character is ASCII, and then holds the same text.
#[verifier::external_body]
fn ascii_word(word: &str) -> (r: Option<String>)
    ensures
        r is Some <==> is_ascii_text(word@),
        r matches Some(s) ==> s@ == word@,
{
    word.into_ascii_string().ok().map(String::from)
}

impl Query {
    /// Makes a query of words that were given one by one: fails on no words,
    /// and on the first word that is not ASCII.
    pub fn from_words(words: &Vec<String>) -> (r: Result<Query, ValidationError>)
        ensures
            validated(views(words@), r),
    {
        if words.len() == 0 {
            return Err(ValidationError::Empty);
        }
        let ghost ws = views(words@);
        let mut out: Vec<String> = Vec::new();
        let mut i: usize = 0;
        while i < words.len()
            invariant
                i <= words@.len(),
                ws == views(words@),
                ws.len() > 0,
                views(out@) == ws.take(i as int),
                all_ascii(ws.take(i as int)),
            decreases words@.len() - i,
        {
            match ascii_word(words[i].as_str()) {
                Some(w) => {
                    let ghost before = out@;
                    out.push(w);
                    assert(views(out@) == views(before).push(ws[i as int]));
                    assert(ws.take(i + 1) == ws.take(i as int).push(ws[i as int]));
                    i = i + 1;
                },
                None => {
                    return Err(ValidationError::NotAscii(i));
                },
            }
        }
        assert(ws.take(i as int) == ws);
        Ok(Query { words: out })
    }
}


/// Cuts a line at each single space, keeping empty words.
pub fn split_line(line: &str) -> (r: Vec<String>)
    ensures
        views(r@) == split_spaces(line@),
{
    let n = line.unicode_len();
    let mut out: Vec<String> = Vec::new();
    let mut start: usize = 0;
    let mut i: usize = 0;
    assert(line@.take(0) == Seq::<char>::empty());
    assert(views(out@) == Seq::<Seq<char>>::empty());
    assert(line@.subrange(0, 0) == Seq::<char>::empty());
    assert(split_spaces(Seq::<char>::empty()) == seq![Seq::<char>::empty()]);
    assert(Seq::<Seq<char>>::empty().push(Seq::<char>::empty()) == seq![Seq::<char>::empty()]);
    while i < n
        invariant
            n == line@.len(),
            start <= i <= n,
            split_spaces(line@.take(i as int)) == views(out@).push(
                line@.subrange(start as int, i as int),
            ),
        decreases n - i,
    {
        let c = line.get_char(i);
        let ghost before = out@;
        assert(line@.take(i + 1).drop_last() == line@.take(i as int));
        assert(line@.take(i + 1).last() == c);
        if c == ' ' {
            let w = line.substring_char(start, i);
            out.push(w.to_owned());
            assert(views(out@) == views(before).push(w@));
            start = i + 1;
            assert(line@.subrange(start as int, i + 1) == Seq::<char>::empty());
        } else {
            assert(line@.subrange(start as int, i + 1) == line@.subrange(
                start as int,
                i as int,
            ).push(c));
        }
        i = i + 1;
    }
    let w = line.substring_char(start, n);
    let ghost before = out@;
    out.push(w.to_owned());
    assert(views(out@) == views(before).push(w@));
    assert(line@.take(n as int) == line@);
    out
}

/// Makes a query of an input line: its words are cut at each single space,
/// and the whole line is refused if any word is not ASCII.
pub fn tokenize(line: &str) -> (r: Result<Query, ValidationError>)
    ensures
        validated(split_spaces(line@), r),
        r is Ok <==> is_ascii_text(line@),
{
    let words = split_line(line);
    let r = Query::from_words(&words);
    proof {
        lemma_split_nonempty(line@);
        lemma_split_ascii(line@);
    }
    r
}

/// Splitting always gives at least one word.
pub proof fn lemma_split_nonempty(s: Seq<char>)
    ensures
        split_spaces(s).len() >= 1,
    decreases s.len(),
{
    if s.len() > 0 {
        lemma_split_nonempty(s.drop_last());
    }
}

/// The words of a line are all ASCII exactly when the line is.
pub proof fn lemma_split_ascii(s: Seq<char>)
    ensures
        all_ascii(split_spaces(s)) <==> is_ascii_text(s),
    decreases s.len(),
{
    if s.len() > 0 {
        let init = split_spaces(s.drop_last());
        lemma_split_nonempty(s.drop_last());
        lemma_split_ascii(s.drop_last());
        let ws = split_spaces(s);
        if is_ascii_text(s) {
            assert(is_ascii_text(s.drop_last()));
            if !is_separator(s.last()) {
                assert(is_ascii_text(init.last().push(s.last())));
            }
            assert(all_ascii(ws));
        } else {
            let k = choose|k: int| 0 <= k < s.len() && !((#[trigger] s[k] as u32) < 128);
            if k < s.len() - 1 {
                assert(s.drop_last()[k] == s[k]);
                assert(!is_ascii_text(s.drop_last()));
                let j = choose|j: int| 0 <= j < init.len() && !is_ascii_text(#[trigger] init[j]);
                if j == init.len() - 1 && !is_separator(s.last()) {
                    let w = init.last();
                    let m = choose|m: int| 0 <= m < w.len() && !((#[trigger] w[m] as u32) < 128);
                    assert(w.push(s.last())[m] == w[m]);
                    assert(!is_ascii_text(ws[j]));
                } else {
                    assert(ws[j] == init[j]);
                }
            } else {
                assert(!is_separator(s.last()));
                let w = init.last().push(s.last());
                assert(w[w.len() - 1] == s.last());
                assert(!is_ascii_text(ws[ws.len() - 1]));
            }
        }
    }
}


/// The word `w` holds no separator.
pub open spec fn is_plain_word(w: Seq<char>) -> bool {
    forall|i: int| 0 <= i < w.len() ==> !is_separator(#[trigger] w[i])
}

proof fn lemma_join_extend(ws: Seq<Seq<char>>, c: char)
    requires
        ws.len() >= 1,
    ensures
        join_spaces(ws.update(ws.len() - 1, ws.last().push(c))) == join_spaces(ws).push(c),
{
    let vs = ws.update(ws.len() - 1, ws.last().push(c));
    if ws.len() > 1 {
        assert(vs.drop_last() == ws.drop_last());
        let a = join_spaces(ws.drop_last()) + seq![' '];
        assert(a + ws.last().push(c) == (a + ws.last()).push(c));
    }
}

/// Joining the words of a line with single spaces gives the line back: no
/// character is lost, added or moved.
pub proof fn lemma_join_split(s: Seq<char>)
    ensures
        join_spaces(split_spaces(s)) == s,
    decreases s.len(),
{
    if s.len() > 0 {
        let t = s.drop_last();
        lemma_join_split(t);
        lemma_split_nonempty(t);
        let ws = split_spaces(t);
        if is_separator(s.last()) {
            assert(ws.push(Seq::empty()).drop_last() == ws);
            assert(t + seq![' '] + Seq::<char>::empty() == s);
        } else {
            lemma_join_extend(ws, s.last());
            assert(t.push(s.last()) == s);
        }
    }
}

proof fn lemma_split_after_space(a: Seq<char>, w: Seq<char>)
    requires
        is_plain_word(w),
    ensures
        split_spaces(a + seq![' '] + w) == split_spaces(a).push(w),
    decreases w.len(),
{
    let b = a + seq![' '];
    if w.len() == 0 {
        assert(b + w == b);
        assert(b.drop_last() == a);
        assert(is_separator(b.last()));
        assert(w == Seq::<char>::empty());
    } else {
        let v = w.drop_last();
        assert(is_plain_word(v));
        lemma_split_after_space(a, v);
        assert((b + w).drop_last() == b + v);
        assert((b + w).last() == w.last());
        assert(!is_separator(w[w.len() - 1]));
        assert(v.push(w.last()) == w);
        let p = split_spaces(a).push(v);
        assert(p.update(p.len() - 1, p.last().push(w.last())) == split_spaces(a).push(w));
    }
}

proof fn lemma_split_word(w: Seq<char>)
    requires
        is_plain_word(w),
    ensures
        split_spaces(w) == seq![w],
    decreases w.len(),
{
    if w.len() > 0 {
        let v = w.drop_last();
        assert(is_plain_word(v));
        lemma_split_word(v);
        assert(!is_separator(w[w.len() - 1]));
        assert(v.push(w.last()) == w);
    } else {
        assert(w == Seq::<char>::empty());
    }
}

/// Cutting a line that was joined of words without spaces gives the same
/// words, in the same order.
pub proof fn lemma_split_join(ws: Seq<Seq<char>>)
    requires
        ws.len() >= 1,
        forall|i: int| 0 <= i < ws.len() ==> is_plain_word(#[trigger] ws[i]),
    ensures
        split_spaces(join_spaces(ws)) == ws,
    decreases ws.len(),
{
    if ws.len() == 1 {
        lemma_split_word(ws[0]);
        assert(ws == seq![ws[0]]);
    } else {
        let init = ws.drop_last();
        assert(forall|i: int| 0 <= i < init.len() ==> #[trigger] init[i] == ws[i]);
        lemma_split_join(init);
        assert(is_plain_word(ws[ws.len() - 1]));
        lemma_split_after_space(join_spaces(init), ws.last());
        assert(init.push(ws.last()) == ws);
    }
}

} // verus!
