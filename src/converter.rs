//! Conversion of whole texts: lines of whitespace-separated romanized words.
use vstd::prelude::*;

use crate::matcher::{
    all_manchu, convert_latin_to_manchu_unicode, graphemes_of, lemma_segment_codes_are_manchu,
    segment, word_codes,
};
use crate::table::{get_latin_manchu_map, is_manchu_code, LatinManchuMap};
use crate::text::{is_surrogate, lines_of, split_lines, split_words, utf16_to_string, views, words_of};

verus! {

/// Whether the caller asked for tolerant mode (absent means no).
pub open spec fn is_tolerant(ignore_error: Option<bool>) -> bool {
    ignore_error == Some(true)
}

/// The Manchu text of a sequence of code points.
pub open spec fn manchu_text(codes: Seq<u16>) -> Seq<char> {
    codes.map_values(|u: u16| u as char)
}

/// A word as it stands in the output: converted, or verbatim where it cannot be.
pub open spec fn rendered_word(w: Seq<char>) -> Seq<char> {
    match word_codes(w) {
        Some(v) => manchu_text(v),
        None => w,
    }
}

/// The parts with `sep` between each two of them.
pub open spec fn join(parts: Seq<Seq<char>>, sep: Seq<char>) -> Seq<char>
    decreases parts.len(),
{
    if parts.len() == 0 {
        Seq::empty()
    } else if parts.len() == 1 {
        parts[0]
    } else {
        join(parts.drop_last(), sep) + sep + parts.last()
    }
}

/// A line as it stands in the output: its words rendered, one space apart.
pub open spec fn rendered_line(words: Seq<Seq<char>>) -> Seq<char> {
    join(words.map_values(|w: Seq<char>| rendered_word(w)), " "@)
}

/// The words that cannot be converted, in order, repeats kept.
pub open spec fn failed_words(words: Seq<Seq<char>>) -> Seq<Seq<char>>
    decreases words.len(),
{
    if words.len() == 0 {
        Seq::empty()
    } else {
        let p = failed_words(words.drop_last());
        if word_codes(words.last()) is None {
            p.push(words.last())
        } else {
            p
        }
    }
}

/// A word between double quotes.
pub open spec fn quoted(w: Seq<char>) -> Seq<char> {
    "\""@ + w + "\""@
}

/// The message that names every word that cannot be converted.
pub open spec fn error_message(failed: Seq<Seq<char>>) -> Seq<char> {
    "Error: Valid syllable not found in ["@ + join(failed.map_values(|w: Seq<char>| quoted(w)), ", "@)
        + "]"@
}

proof fn lemma_join_push(parts: Seq<Seq<char>>, x: Seq<char>, sep: Seq<char>)
    ensures
        join(parts.push(x), sep) == if parts.len() == 0 {
            x
        } else {
            join(parts, sep) + sep + x
        },
{
    assert(parts.push(x).drop_last() =~= parts);
}

/// Renders the words of a line, one space apart, and appends those that cannot
/// be converted to `failures`.
fn render_words<'a>(
    words: &Vec<&'a str>,
    latin_manchu_map: &LatinManchuMap,
    failures: &mut Vec<&'a str>,
) -> (r: String)
    ensures
        r@ == rendered_line(views(words@)),
        views(final(failures)@) == views(old(failures)@) + failed_words(views(words@)),
{
    let ghost ws = views(words@);
    let ghost rendered = ws.map_values(|w: Seq<char>| rendered_word(w));
    let ghost start = views(failures@);
    let mut out = String::new();
    let mut k: usize = 0;
    proof {
        assert(ws.take(0) =~= Seq::<Seq<char>>::empty());
        assert(rendered.take(0) =~= Seq::<Seq<char>>::empty());
        assert(start + Seq::<Seq<char>>::empty() =~= start);
    }
    while k < words.len()
        invariant
            ws == views(words@),
            rendered == ws.map_values(|w: Seq<char>| rendered_word(w)),
            k <= words.len(),
            out@ == join(rendered.take(k as int), " "@),
            views(failures@) == start + failed_words(ws.take(k as int)),
        decreases words.len() - k,
    {
        let word = words[k];
        let ghost w = word@;
        assert(w == ws[k as int]);
        if k > 0 {
            out.append(" ");
        }
        match convert_latin_to_manchu_unicode(word, latin_manchu_map, &None) {
            Ok(v) => {
                proof {
                    lemma_segment_codes_are_manchu(graphemes_of(w));
                    assert(segment(graphemes_of(w)) == Some(v@));
                    assert(all_manchu(v@));
                    assert forall|j: int| 0 <= j < v@.len() implies !is_surrogate(
                        #[trigger] v@[j],
                    ) by {
                        assert(is_manchu_code(v@[j]));
                    }
                }
                let text = utf16_to_string(&v);
                match text {
                    Some(t) => {
                        out.append(t.as_str());
                    },
                    None => {},
                }
            },
            Err(_) => {
                let ghost f0 = failures@;
                out.append(word);
                failures.push(word);
                assert(views(failures@) =~= views(f0).push(w));
            },
        }
        proof {
            assert(ws.take(k + 1).drop_last() =~= ws.take(k as int));
            assert(rendered.take(k + 1) =~= rendered.take(k as int).push(rendered[k as int]));
            lemma_join_push(rendered.take(k as int), rendered[k as int], " "@);
        }
        k = k + 1;
    }
    assert(ws.take(k as int) =~= ws);
    assert(rendered.take(k as int) =~= rendered);
    out
}

/// Builds the message that names the words that cannot be converted.
fn error_text(failed: &Vec<&str>) -> (r: String)
    ensures
        r@ == error_message(views(failed@)),
{
    let ghost fs = views(failed@);
    let ghost qs = fs.map_values(|w: Seq<char>| quoted(w));
    let ghost head = "Error: Valid syllable not found in ["@;
    let mut e = String::from_str("Error: Valid syllable not found in [");
    let mut k: usize = 0;
    proof {
        assert(qs.take(0) =~= Seq::<Seq<char>>::empty());
        assert(e@ =~= head + join(qs.take(0), ", "@));
    }
    while k < failed.len()
        invariant
            fs == views(failed@),
            qs == fs.map_values(|w: Seq<char>| quoted(w)),
            head == "Error: Valid syllable not found in ["@,
            k <= failed.len(),
            e@ == head + join(qs.take(k as int), ", "@),
        decreases failed.len() - k,
    {
        let ghost before = join(qs.take(k as int), ", "@);
        if k > 0 {
            e.append(", ");
        }
        e.append("\"");
        e.append(failed[k]);
        e.append("\"");
        proof {
            assert(qs.take(k + 1) =~= qs.take(k as int).push(qs[k as int]));
            lemma_join_push(qs.take(k as int), qs[k as int], ", "@);
            assert(qs[k as int] == quoted(failed@[k as int]@));
            if k > 0 {
                assert(e@ =~= head + (before + ", "@ + qs[k as int]));
            } else {
                assert(e@ =~= head + qs[k as int]);
            }
        }
        k = k + 1;
    }
    e.append("]");
    assert(qs.take(k as int) =~= qs);
    e
}

/// Converts the words of one line, one space apart. Words that cannot be
/// converted stand verbatim; unless `ignore_error` is `Some(true)`, they make
/// the line fail with a message that names each of them.
pub fn words_to_manchu_unicode(
    words: Vec<&str>,
    latin_manchu_map: &LatinManchuMap,
    ignore_error: &Option<bool>,
) -> (r: Result<String, Result<String, String>>)
    ensures
        r is Ok <==> (is_tolerant(*ignore_error) || failed_words(views(words@)).len() == 0),
        r matches Ok(s) ==> s@ == rendered_line(views(words@)),
        r matches Err(e) ==> (e matches Err(m) && m@ == error_message(failed_words(views(words@)))),
{
    let mut failures: Vec<&str> = Vec::new();
    let line = render_words(&words, latin_manchu_map, &mut failures);
    assert(views(failures@) =~= failed_words(views(words@)));
    let tolerant = match ignore_error {
        Some(b) => *b,
        None => false,
    };
    if failures.len() > 0 && !tolerant {
        Err(Err(error_text(&failures)))
    } else {
        Ok(line)
    }
}

/// The sequences one after another.
pub open spec fn concat(parts: Seq<Seq<Seq<char>>>) -> Seq<Seq<char>>
    decreases parts.len(),
{
    if parts.len() == 0 {
        Seq::empty()
    } else {
        concat(parts.drop_last()) + parts.last()
    }
}

/// The Manchu text of a romanized text: its lines rendered, one line feed apart.
pub open spec fn rendered_text(s: Seq<char>) -> Seq<char> {
    join(lines_of(s).map_values(|l: Seq<char>| rendered_line(words_of(l))), "\n"@)
}

/// The words of a text that cannot be converted, line after line, in order.
pub open spec fn text_failures(s: Seq<char>) -> Seq<Seq<char>> {
    concat(lines_of(s).map_values(|l: Seq<char>| failed_words(words_of(l))))
}

/// A text with no characters has no lines: it converts to the empty text and
/// no word fails.
pub proof fn lemma_empty_text(s: Seq<char>)
    requires
        s.len() == 0,
    ensures
        text_failures(s).len() == 0,
        rendered_text(s) == Seq::<char>::empty(),
{
    assert(lines_of(s) =~= Seq::<Seq<char>>::empty());
}

/// A word that cannot be converted stands in the output as it was written.
pub proof fn lemma_unconvertible_word_verbatim(w: Seq<char>)
    requires
        word_codes(w) is None,
    ensures
        rendered_word(w) == w,
{
}

/// The failures of a line are exactly its words that cannot be converted.
pub proof fn lemma_failed_words_exact(words: Seq<Seq<char>>)
    ensures
        forall|k: int|
            0 <= k < failed_words(words).len() ==> word_codes(#[trigger] failed_words(words)[k])
                is None && words.contains(failed_words(words)[k]),
        forall|k: int|
            0 <= k < words.len() && word_codes(#[trigger] words[k]) is None ==> failed_words(
                words,
            ).contains(words[k]),
    decreases words.len(),
{
    if words.len() > 0 {
        let init = words.drop_last();
        lemma_failed_words_exact(init);
        let f = failed_words(words);
        let fi = failed_words(init);
        assert forall|k: int| 0 <= k < f.len() implies word_codes(#[trigger] f[k]) is None
            && words.contains(f[k]) by {
            if k < fi.len() {
                assert(f[k] == fi[k]);
                let j = choose|j: int| 0 <= j < init.len() && init[j] == fi[k];
                assert(words[j] == f[k]);
            } else {
                assert(words[words.len() - 1] == f[k]);
            }
        }
        assert forall|k: int| 0 <= k < words.len() && word_codes(#[trigger] words[k]) is None
            implies f.contains(words[k]) by {
            if k < init.len() {
                assert(init[k] == words[k]);
                let j = choose|j: int| 0 <= j < fi.len() && fi[j] == init[k];
                assert(f[j] == fi[j]);
            } else {
                assert(f[f.len() - 1] == words[k]);
            }
        }
    }
}

/// Whether `x` is an item of one of the parts.
pub open spec fn in_some_part(parts: Seq<Seq<Seq<char>>>, x: Seq<char>) -> bool {
    exists|i: int, j: int| 0 <= i < parts.len() && 0 <= j < parts[i].len() && #[trigger] parts[i][j] == x
}

/// Whether `w` is a word of some line of the text `s`.
pub open spec fn is_word_of_text(s: Seq<char>, w: Seq<char>) -> bool {
    exists|i: int| 0 <= i < lines_of(s).len() && #[trigger] words_of(lines_of(s)[i]).contains(w)
}

proof fn lemma_concat_members(parts: Seq<Seq<Seq<char>>>)
    ensures
        forall|k: int| 0 <= k < concat(parts).len() ==> in_some_part(parts, #[trigger] concat(parts)[k]),
        forall|i: int, j: int|
            0 <= i < parts.len() && 0 <= j < parts[i].len() ==> concat(parts).contains(
                #[trigger] parts[i][j],
            ),
    decreases parts.len(),
{
    if parts.len() > 0 {
        let init = parts.drop_last();
        let last = parts.last();
        lemma_concat_members(init);
        let c = concat(parts);
        let ci = concat(init);
        assert(c == ci + last);
        assert forall|k: int| 0 <= k < c.len() implies in_some_part(parts, #[trigger] c[k]) by {
            if k < ci.len() {
                assert(c[k] == ci[k]);
                assert(in_some_part(init, ci[k]));
                let (i, j) = choose|i: int, j: int|
                    0 <= i < init.len() && 0 <= j < init[i].len() && #[trigger] init[i][j] == ci[k];
                assert(parts[i] == init[i]);
                assert(parts[i][j] == c[k]);
            } else {
                assert(parts[parts.len() - 1][k - ci.len()] == c[k]);
                assert(in_some_part(parts, c[k]));
            }
        }
        assert forall|i: int, j: int| 0 <= i < parts.len() && 0 <= j < parts[i].len() implies c.contains(
            #[trigger] parts[i][j],
        ) by {
            if i < init.len() {
                assert(init[i] == parts[i]);
                assert(ci.contains(init[i][j]));
                let m = choose|m: int| 0 <= m < ci.len() && ci[m] == init[i][j];
                assert(c[m] == ci[m]);
            } else {
                assert(c[ci.len() + j] == last[j]);
            }
        }
    }
}

/// The failures of a text are exactly its words that cannot be converted:
/// each failure is such a word of some line, and each such word is a failure.
pub proof fn lemma_text_failures_exact(s: Seq<char>)
    ensures
        forall|k: int|
            0 <= k < text_failures(s).len() ==> word_codes(#[trigger] text_failures(s)[k]) is None
                && is_word_of_text(s, text_failures(s)[k]),
        forall|i: int, w: Seq<char>|
            0 <= i < lines_of(s).len() && #[trigger] words_of(lines_of(s)[i]).contains(w)
                && word_codes(w) is None ==> text_failures(s).contains(w),
{
    let ls = lines_of(s);
    let per_line = ls.map_values(|l: Seq<char>| failed_words(words_of(l)));
    let t = text_failures(s);
    lemma_concat_members(per_line);
    assert forall|k: int| 0 <= k < t.len() implies word_codes(#[trigger] t[k]) is None
        && is_word_of_text(s, t[k]) by {
        assert(in_some_part(per_line, t[k]));
        let (i, j) = choose|i: int, j: int|
            0 <= i < per_line.len() && 0 <= j < per_line[i].len() && #[trigger] per_line[i][j] == t[k];
        lemma_failed_words_exact(words_of(ls[i]));
        assert(per_line[i] == failed_words(words_of(ls[i])));
        assert(words_of(ls[i]).contains(t[k]));
    }
    assert forall|i: int, w: Seq<char>|
        0 <= i < ls.len() && #[trigger] words_of(ls[i]).contains(w) && word_codes(w) is None implies t.contains(w) by {
        let ws = words_of(ls[i]);
        lemma_failed_words_exact(ws);
        let k = choose|k: int| 0 <= k < ws.len() && ws[k] == w;
        assert(failed_words(ws).contains(ws[k]));
        let j = choose|j: int| 0 <= j < failed_words(ws).len() && failed_words(ws)[j] == w;
        assert(per_line[i] == failed_words(ws));
        assert(per_line[i][j] == w);
    }
}

/// Transliteration of romanized Manchu into the Manchu script.
pub trait ManchuConverter {
    /// The romanized text.
    spec fn latin_text(&self) -> Seq<char>;

    /// Converts the text line by line and word by word. Unless `ignore_error`
    /// is `Some(true)`, any word that cannot be converted makes the call fail
    /// with a message that names every such word; in tolerant mode such words
    /// stand verbatim in the result.
    fn convert_to_manchu(&self, ignore_error: &Option<bool>) -> (r: Result<String, String>)
        ensures
            r is Ok <==> (is_tolerant(*ignore_error) || text_failures(self.latin_text()).len() == 0),
            r matches Ok(s) ==> s@ == rendered_text(self.latin_text()),
            r matches Err(e) ==> e@ == error_message(text_failures(self.latin_text())),
    ;
}

impl ManchuConverter for str {
    open spec fn latin_text(&self) -> Seq<char> {
        self@
    }

    fn convert_to_manchu(&self, ignore_error: &Option<bool>) -> (r: Result<String, String>) {
        let latin_manchu_map = get_latin_manchu_map();
        let lines = split_lines(self);
        let ghost ls = views(lines@);
        let ghost rendered = ls.map_values(|l: Seq<char>| rendered_line(words_of(l)));
        let ghost per_line = ls.map_values(|l: Seq<char>| failed_words(words_of(l)));
        let mut out = String::new();
        let mut failures: Vec<&str> = Vec::new();
        let mut i: usize = 0;
        proof {
            assert(rendered.take(0) =~= Seq::<Seq<char>>::empty());
            assert(per_line.take(0) =~= Seq::<Seq<Seq<char>>>::empty());
            assert(views(failures@) =~= Seq::<Seq<char>>::empty());
        }
        while i < lines.len()
            invariant
                ls == views(lines@),
                ls == lines_of(self@),
                rendered == ls.map_values(|l: Seq<char>| rendered_line(words_of(l))),
                per_line == ls.map_values(|l: Seq<char>| failed_words(words_of(l))),
                i <= lines.len(),
                out@ == join(rendered.take(i as int), "\n"@),
                views(failures@) == concat(per_line.take(i as int)),
            decreases lines.len() - i,
        {
            let words = split_words(lines[i]);
            assert(views(words@) == words_of(ls[i as int]));
            let line = render_words(&words, &latin_manchu_map, &mut failures);
            if i > 0 {
                out.append("\n");
            }
            out.append(line.as_str());
            proof {
                assert(rendered.take(i + 1) =~= rendered.take(i as int).push(rendered[i as int]));
                lemma_join_push(rendered.take(i as int), rendered[i as int], "\n"@);
                assert(per_line.take(i + 1).drop_last() =~= per_line.take(i as int));
            }
            i = i + 1;
        }
        assert(rendered.take(i as int) =~= rendered);
        assert(per_line.take(i as int) =~= per_line);
        let tolerant = match ignore_error {
            Some(b) => *b,
            None => false,
        };
        if failures.len() > 0 && !tolerant {
            Err(error_text(&failures))
        } else {
            Ok(out)
        }
    }
}

} // verus!
