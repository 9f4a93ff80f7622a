use crate::ast::ParseError;
use crate::grammar::texts;
use vstd::prelude::*;

verus! {

/// Unicode's `White_Space` characters.
pub open spec fn white_space(c: char) -> bool {
    ('\u{9}' <= c <= '\u{d}') || c == ' ' || c == '\u{85}' || c == '\u{a0}' || c == '\u{1680}'
        || ('\u{2000}' <= c <= '\u{200a}') || c == '\u{2028}' || c == '\u{2029}' || c == '\u{202f}'
        || c == '\u{205f}' || c == '\u{3000}'
}

/// Whether `c` is a whitespace character.
fn is_space(c: char) -> (r: bool)
    ensures
        r == white_space(c),
{
    ('\u{9}' <= c && c <= '\u{d}') || c == ' ' || c == '\u{85}' || c == '\u{a0}' || c == '\u{1680}'
        || ('\u{2000}' <= c && c <= '\u{200a}') || c == '\u{2028}' || c == '\u{2029}'
        || c == '\u{202f}' || c == '\u{205f}' || c == '\u{3000}'
}

/// The words of a line: its maximal runs of non-whitespace characters, in order.
pub open spec fn words(s: Seq<char>) -> Seq<Seq<char>>
    decreases s.len(),
{
    if s.len() == 0 {
        seq![]
    } else {
        let p = s.drop_last();
        let c = s.last();
        let w = words(p);
        if white_space(c) {
            w
        } else if p.len() == 0 || white_space(p.last()) {
            w.push(seq![c])
        } else {
            w.update(w.len() - 1, w.last().push(c))
        }
    }
}

/// The tokens of one word: a word that starts with the literal marker `"` or
/// the variable marker `:` gives the marker and the rest of the word, which
/// must not be empty; any other word is one token.
pub open spec fn word_tokens(w: Seq<char>) -> Option<Seq<Seq<char>>> {
    if w.len() > 0 && (w[0] == '"' || w[0] == ':') {
        if w.len() == 1 {
            None
        } else if w[0] == '"' {
            Some(seq!["\""@, w.drop_first()])
        } else {
            Some(seq![":"@, w.drop_first()])
        }
    } else {
        Some(seq![w])
    }
}

/// The tokens of a list of words, in order.
pub open spec fn words_tokens(ws: Seq<Seq<char>>) -> Option<Seq<Seq<char>>>
    decreases ws.len(),
{
    if ws.len() == 0 {
        Some(seq![])
    } else {
        match (words_tokens(ws.drop_last()), word_tokens(ws.last())) {
            (Some(a), Some(b)) => Some(a + b),
            _ => None,
        }
    }
}

/// The tokens of a list of lines: each line's words, then a newline token.
pub open spec fn lex(lines: Seq<Seq<char>>) -> Option<Seq<Seq<char>>>
    decreases lines.len(),
{
    if lines.len() == 0 {
        Some(seq![])
    } else {
        match (lex(lines.drop_last()), words_tokens(words(lines.last()))) {
            (Some(a), Some(b)) => Some(a + b + seq!["\n"@]),
            _ => None,
        }
    }
}

/// The text after the first character, or `None` for an empty string.
fn remove_prefix(s: &str) -> (r: Option<&str>)
    ensures
        s@.len() == 0 ==> r is None,
        s@.len() > 0 ==> r is Some && r->Some_0@ == s@.drop_first(),
{
    let n = s.unicode_len();
    if n == 0 {
        None
    } else {
        Some(s.substring_char(1, n))
    }
}

/// Splits a line into its words.
pub fn split_words(line: &str) -> (r: Vec<String>)
    ensures
        texts(r@) == words(line@),
{
    let n = line.unicode_len();
    let mut out: Vec<String> = Vec::new();
    let mut start: usize = 0;
    let mut in_word = false;
    let mut i: usize = 0;
    assert(texts(out@) =~= seq![]);
    while i < n
        invariant
            n == line@.len(),
            i <= n,
            start <= i,
            in_word ==> start < i,
            i > 0 ==> (in_word <==> !white_space(line@[i - 1])),
            i == 0 ==> !in_word,
            in_word ==> words(line@.take(i as int)) == texts(out@).push(
                line@.subrange(start as int, i as int),
            ),
            !in_word ==> words(line@.take(i as int)) == texts(out@),
        decreases n - i,
    {
        let c = line.get_char(i);
        let ghost p = line@.take(i as int);
        let ghost before = texts(out@);
        assert(line@.take(i + 1).drop_last() =~= p);
        assert(line@.take(i + 1).last() == c);
        if i > 0 {
            assert(p.last() == line@[i - 1]);
        }
        if is_space(c) {
            if in_word {
                let w = String::from_str(line.substring_char(start, i));
                out.push(w);
                assert(texts(out@) =~= before.push(w@));
            }
            in_word = false;
        } else {
            if !in_word {
                start = i;
                in_word = true;
                assert(line@.subrange(i as int, i + 1) =~= seq![c]);
            } else {
                assert(line@.subrange(start as int, i + 1) =~= line@.subrange(
                    start as int,
                    i as int,
                ).push(c));
                assert(before.push(line@.subrange(start as int, i as int)).update(
                    before.len() as int,
                    line@.subrange(start as int, i + 1),
                ) =~= before.push(line@.subrange(start as int, i + 1)));
            }
        }
        i = i + 1;
    }
    assert(line@.take(n as int) =~= line@);
    if in_word {
        let ghost before = texts(out@);
        let w = String::from_str(line.substring_char(start, n));
        out.push(w);
        assert(texts(out@) =~= before.push(w@));
    }
    out
}

proof fn lemma_words_tokens_none(ws: Seq<Seq<char>>, k: int)
    requires
        0 <= k <= ws.len(),
        words_tokens(ws.take(k)) is None,
    ensures
        words_tokens(ws) is None,
    decreases ws.len(),
{
    if k == ws.len() {
        assert(ws.take(k) =~= ws);
    } else {
        assert(ws.drop_last().take(k) =~= ws.take(k));
        lemma_words_tokens_none(ws.drop_last(), k);
    }
}

proof fn lemma_lex_none(lines: Seq<Seq<char>>, k: int)
    requires
        0 <= k <= lines.len(),
        lex(lines.take(k)) is None,
    ensures
        lex(lines) is None,
    decreases lines.len(),
{
    if k == lines.len() {
        assert(lines.take(k) =~= lines);
    } else {
        assert(lines.drop_last().take(k) =~= lines.take(k));
        lemma_lex_none(lines.drop_last(), k);
    }
}

/// Turns source lines into tokens. Each line is split on whitespace; a word
/// that starts with `"` or `:` becomes the marker and the rest of the word;
/// every line ends with a newline token. A marker with nothing after it is a
/// `LexError`.
pub fn tokenise_logo(lines: &Vec<String>) -> (r: Result<Vec<String>, ParseError>)
    ensures
        match lex(texts(lines@)) {
            Some(ts) => r is Ok && texts(r->Ok_0@) == ts,
            None => r == Err::<Vec<String>, ParseError>(ParseError::LexError),
        },
{
    let ghost all = texts(lines@);
    let mut tokens: Vec<String> = Vec::new();
    let mut i: usize = 0;
    assert(all.take(0) =~= seq![]);
    assert(texts(tokens@) =~= seq![]);
    while i < lines.len()
        invariant
            all == texts(lines@),
            i <= lines.len(),
            lex(all.take(i as int)) == Some(texts(tokens@)),
        decreases lines.len() - i,
    {
        let ws = split_words(lines[i].as_str());
        let ghost base = texts(tokens@);
        let ghost wv = texts(ws@);
        let mut j: usize = 0;
        assert(wv.take(0) =~= seq![]);
        assert(base + seq![] =~= base);
        while j < ws.len()
            invariant
                all == texts(lines@),
                i < lines.len(),
                wv == texts(ws@),
                wv == words(lines@[i as int]@),
                lex(all.take(i as int)) == Some(base),
                j <= ws.len(),
                words_tokens(wv.take(j as int)) is Some,
                texts(tokens@) == base + words_tokens(wv.take(j as int))->Some_0,
            decreases ws.len() - j,
        {
            let ghost before = texts(tokens@);
            let ghost f = words_tokens(wv.take(j as int))->Some_0;
            assert(wv.take(j + 1).drop_last() =~= wv.take(j as int));
            assert(wv.take(j + 1).last() == ws@[j as int]@);
            let word = ws[j].as_str();
            let n = word.unicode_len();
            let c = if n > 0 {
                word.get_char(0)
            } else {
                ' '
            };
            if n > 0 && (c == '"' || c == ':') {
                let rest = match remove_prefix(word) {
                    Some(rest) => rest,
                    None => {
                        return Err(ParseError::LexError);
                    },
                };
                if rest.unicode_len() == 0 {
                    proof {
                        lemma_words_tokens_none(wv, j + 1);
                        assert(all.take(i + 1).drop_last() =~= all.take(i as int));
                        lemma_lex_none(all, i + 1);
                    }
                    return Err(ParseError::LexError);
                }
                let marker = if c == '"' {
                    String::from_str("\"")
                } else {
                    String::from_str(":")
                };
                tokens.push(marker);
                tokens.push(String::from_str(rest));
                assert(texts(tokens@) =~= before + seq![marker@, rest@]);
                assert(texts(tokens@) =~= base + (f + seq![marker@, rest@]));
            } else {
                let whole = ws[j].clone();
                assert(whole@ == ws@[j as int]@);
                tokens.push(whole);
                assert(texts(tokens@) =~= before.push(whole@));
                assert(texts(tokens@) =~= base + (f + seq![ws@[j as int]@]));
            }
            j = j + 1;
        }
        assert(wv.take(j as int) =~= wv);
        let ghost before = texts(tokens@);
        tokens.push(String::from_str("\n"));
        assert(texts(tokens@) =~= before + seq!["\n"@]);
        assert(all.take(i + 1).drop_last() =~= all.take(i as int));
        assert(all.take(i + 1).last() == lines@[i as int]@);
        i = i + 1;
    }
    assert(all.take(lines.len() as int) =~= all);
    Ok(tokens)
}

} // verus!
