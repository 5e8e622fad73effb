//! Greedy longest-match segmentation of one romanized word into phoneme units.
use unicode_segmentation::UnicodeSegmentation;
use vstd::prelude::*;

use crate::text::views;
use crate::table::{is_manchu_code, lemma_codes_are_manchu, phoneme_code, single_code, LatinManchuMap};

verus! {

/// The extended grapheme clusters of a text, in order.
pub uninterp spec fn graphemes_of(s: Seq<char>) -> Seq<Seq<char>>;

/// Relies on `UnicodeSegmentation::graphemes` (extended clusters) of unicode-segmentation:
/// the clusters it yields depend on the characters of the text alone.
#[verifier::external_body]
fn graphemes<'a>(word: &'a str) -> (r: Vec<&'a str>)
    ensures
        views(r@) == graphemes_of(word@),
{
    UnicodeSegmentation::graphemes(word, true).collect()
}

/// Whether the grapheme at position `k` exists and is the single character `c`.
pub open spec fn grapheme_at(gs: Seq<Seq<char>>, k: int, c: char) -> bool {
    0 <= k < gs.len() && gs[k] == seq![c]
}

/// How many graphemes the unit that starts the sequence spans: a multi-character
/// rule, tried in priority order, or else the single grapheme.
pub open spec fn unit_len(gs: Seq<Seq<char>>) -> nat {
    if grapheme_at(gs, 0, 'c') && grapheme_at(gs, 1, '\'') && grapheme_at(gs, 2, 'y') {
        3
    } else if grapheme_at(gs, 0, 't') && grapheme_at(gs, 1, 's') && grapheme_at(gs, 2, '\'') {
        3
    } else if grapheme_at(gs, 0, 'n') && grapheme_at(gs, 1, 'g') {
        2
    } else if grapheme_at(gs, 0, 'd') && grapheme_at(gs, 1, 'z') {
        2
    } else if grapheme_at(gs, 0, 'k') && grapheme_at(gs, 1, '\'') {
        2
    } else if grapheme_at(gs, 0, 'g') && grapheme_at(gs, 1, '\'') {
        2
    } else if grapheme_at(gs, 0, 'h') && grapheme_at(gs, 1, '\'') {
        2
    } else {
        1
    }
}

/// The spelling of the unit that starts the sequence.
pub open spec fn unit_spelling(gs: Seq<Seq<char>>) -> Seq<char> {
    if unit_len(gs) == 3 {
        gs[0] + gs[1] + gs[2]
    } else if unit_len(gs) == 2 {
        gs[0] + gs[1]
    } else {
        gs[0]
    }
}

/// The code points of a word given as graphemes, or `None` where some unit is
/// not in the table. Units are chosen greedily from the left, never revisited.
pub open spec fn segment(gs: Seq<Seq<char>>) -> Option<Seq<u16>>
    decreases gs.len(),
{
    if gs.len() == 0 {
        Some(Seq::empty())
    } else {
        match phoneme_code(unit_spelling(gs)) {
            None => None,
            Some(c) => match segment(gs.skip(unit_len(gs) as int)) {
                None => None,
                Some(rest) => Some(seq![c] + rest),
            },
        }
    }
}

/// `r` with `p` in front, where it is `Some`.
pub open spec fn prepend(p: Seq<u16>, r: Option<Seq<u16>>) -> Option<Seq<u16>> {
    match r {
        Some(x) => Some(p + x),
        None => None,
    }
}

/// The code points of a romanized word, or `None` where it cannot be segmented.
pub open spec fn word_codes(w: Seq<char>) -> Option<Seq<u16>> {
    segment(graphemes_of(w))
}

/// The message that names a word that cannot be converted.
pub open spec fn word_error(w: Seq<char>) -> Seq<char> {
    "Error: Valid syllable not found in \""@ + w + "\""@
}

/// Whether every code point of the sequence is a Manchu letter.
pub open spec fn all_manchu(v: Seq<u16>) -> bool {
    forall|k: int| 0 <= k < v.len() ==> is_manchu_code(#[trigger] v[k])
}

/// Every code point that a segmentation yields is a Manchu letter.
pub proof fn lemma_segment_codes_are_manchu(gs: Seq<Seq<char>>)
    ensures
        segment(gs) matches Some(v) ==> all_manchu(v),
    decreases gs.len(),
{
    if gs.len() > 0 {
        lemma_codes_are_manchu(unit_spelling(gs));
        lemma_segment_codes_are_manchu(gs.skip(unit_len(gs) as int));
        if let Some(v) = segment(gs) {
            let rest = segment(gs.skip(unit_len(gs) as int))->Some_0;
            assert forall|k: int| 0 <= k < v.len() implies is_manchu_code(#[trigger] v[k]) by {
                if k > 0 {
                    assert(v[k] == rest[k - 1]);
                }
            }
        }
    }
}

fn grapheme_is(gs: &Vec<&str>, k: usize, c: char) -> (r: bool)
    ensures
        r == grapheme_at(views(gs@), k as int, c),
{
    if k < gs.len() && gs[k].unicode_len() == 1 && gs[k].get_char(0) == c {
        assert(gs[k as int]@ =~= seq![c]);
        true
    } else {
        false
    }
}

/// Converts a word given as graphemes into code points, greedily from the left.
pub fn convert_graphemes(gs: &Vec<&str>, latin_manchu_map: &LatinManchuMap) -> (r: Option<Vec<u16>>)
    ensures
        r is Some <==> segment(views(gs@)) is Some,
        r matches Some(v) ==> segment(views(gs@)) == Some(v@),
{
    let ghost vs = views(gs@);
    let mut out: Vec<u16> = Vec::new();
    let mut i: usize = 0;
    proof {
        assert(vs.skip(0) =~= vs);
        if let Some(x) = segment(vs) {
            assert(out@ + x =~= x);
        }
    }
    while i < gs.len()
        invariant
            vs == views(gs@),
            i <= gs.len(),
            segment(vs) == prepend(out@, segment(vs.skip(i as int))),
        decreases gs.len() - i,
    {
        let ghost rest = vs.skip(i as int);
        assert(rest.len() > 0);
        let n: usize;
        let code: Option<u16>;
        if grapheme_is(gs, i, 'c') && grapheme_is(gs, i + 1, '\'') && grapheme_is(gs, i + 2, 'y') {
            proof {
                reveal_strlit("c'y");
                assert(unit_spelling(rest) =~= "c'y"@);
            }
            code = latin_manchu_map.get("c'y");
            n = 3;
        } else if grapheme_is(gs, i, 't') && grapheme_is(gs, i + 1, 's') && grapheme_is(
            gs,
            i + 2,
            '\'',
        ) {
            proof {
                reveal_strlit("ts'");
                assert(unit_spelling(rest) =~= "ts'"@);
            }
            code = latin_manchu_map.get("ts'");
            n = 3;
        } else if grapheme_is(gs, i, 'n') && grapheme_is(gs, i + 1, 'g') {
            proof {
                reveal_strlit("ng");
                assert(unit_spelling(rest) =~= "ng"@);
            }
            code = latin_manchu_map.get("ng");
            n = 2;
        } else if grapheme_is(gs, i, 'd') && grapheme_is(gs, i + 1, 'z') {
            proof {
                reveal_strlit("dz");
                assert(unit_spelling(rest) =~= "dz"@);
            }
            code = latin_manchu_map.get("dz");
            n = 2;
        } else if grapheme_is(gs, i, 'k') && grapheme_is(gs, i + 1, '\'') {
            proof {
                reveal_strlit("k'");
                assert(unit_spelling(rest) =~= "k'"@);
            }
            code = latin_manchu_map.get("k'");
            n = 2;
        } else if grapheme_is(gs, i, 'g') && grapheme_is(gs, i + 1, '\'') {
            proof {
                reveal_strlit("g'");
                assert(unit_spelling(rest) =~= "g'"@);
            }
            code = latin_manchu_map.get("g'");
            n = 2;
        } else if grapheme_is(gs, i, 'h') && grapheme_is(gs, i + 1, '\'') {
            proof {
                reveal_strlit("h'");
                assert(unit_spelling(rest) =~= "h'"@);
            }
            code = latin_manchu_map.get("h'");
            n = 2;
        } else {
            code = latin_manchu_map.get(gs[i]);
            n = 1;
        }
        assert(n == unit_len(rest));
        match code {
            None => {
                return None;
            },
            Some(c) => {
                proof {
                    assert(rest.skip(n as int) =~= vs.skip(i + n));
                    if let Some(tail) = segment(vs.skip(i + n)) {
                        assert(out@ + (seq![c] + tail) =~= out@.push(c) + tail);
                    }
                }
                out.push(c);
                i = i + n;
            },
        }
    }
    assert(vs.skip(i as int) =~= Seq::<Seq<char>>::empty());
    assert(out@ + Seq::<u16>::empty() =~= out@);
    Some(out)
}

/// Converts one romanized word into Manchu code points. A word that cannot be
/// segmented fails in either mode, so the mode does not change the result: no
/// partial result is salvaged.
pub fn convert_latin_to_manchu_unicode(
    word: &str,
    latin_manchu_map: &LatinManchuMap,
    _ignore_error: &Option<bool>,
) -> (r: Result<Vec<u16>, String>)
    ensures
        r is Ok <==> word_codes(word@) is Some,
        r matches Ok(v) ==> word_codes(word@) == Some(v@),
        r matches Err(e) ==> e@ == word_error(word@),
{
    let gs = graphemes(word);
    match convert_graphemes(&gs, latin_manchu_map) {
        Some(v) => Ok(v),
        None => {
            let mut e = String::from_str("Error: Valid syllable not found in \"");
            e.append(word);
            e.append("\"");
            Err(e)
        },
    }
}

/// Whether a grapheme is one character that the table spells on its own.
pub open spec fn is_single_spelling(g: Seq<char>) -> bool {
    g.len() == 1 && single_code(g[0]) is Some
}

/// Whether the graphemes at `k` and `k + 1` form one of the two-letter units
/// whose letters are also spellings of their own.
pub open spec fn pair_at(gs: Seq<Seq<char>>, k: int) -> bool {
    (grapheme_at(gs, k, 'n') && grapheme_at(gs, k + 1, 'g')) || (grapheme_at(gs, k, 'd')
        && grapheme_at(gs, k + 1, 'z'))
}

/// The code points of a sequence of one-character spellings, one for each.
pub open spec fn per_char_codes(gs: Seq<Seq<char>>) -> Seq<u16> {
    gs.map_values(|g: Seq<char>| single_code(g[0])->Some_0)
}

/// A word made only of one-character spellings always converts; where no two of
/// them form `ng` or `dz`, each character gives its own code point, in order.
pub proof fn lemma_single_spellings_convert(gs: Seq<Seq<char>>)
    requires
        forall|k: int| 0 <= k < gs.len() ==> is_single_spelling(#[trigger] gs[k]),
    ensures
        segment(gs) is Some,
        (forall|k: int| 0 <= k < gs.len() ==> !#[trigger] pair_at(gs, k)) ==> segment(gs)
            == Some(per_char_codes(gs)),
    decreases gs.len(),
{
    if gs.len() > 0 {
        let n = unit_len(gs) as int;
        assert(is_single_spelling(gs[0]));
        if gs.len() > 1 {
            assert(is_single_spelling(gs[1]));
            assert(gs[1] != seq!['\'']) by {
                if gs[1] == seq!['\''] {
                    assert(gs[1][0] == '\'');
                }
            }
        }
        if gs.len() > 2 {
            assert(is_single_spelling(gs[2]));
            assert(gs[2] != seq!['\'']) by {
                if gs[2] == seq!['\''] {
                    assert(gs[2][0] == '\'');
                }
            }
        }
        assert(n == 1 || n == 2);
        let tail = gs.skip(n);
        assert forall|k: int| 0 <= k < tail.len() implies is_single_spelling(#[trigger] tail[k]) by {
            assert(tail[k] == gs[k + n]);
        }
        lemma_single_spellings_convert(tail);
        if n == 1 {
            assert(unit_spelling(gs) == gs[0]);
        }
        if forall|k: int| 0 <= k < gs.len() ==> !#[trigger] pair_at(gs, k) {
            assert(!pair_at(gs, 0));
            assert(n == 1);
            assert forall|k: int| 0 <= k < tail.len() implies !#[trigger] pair_at(tail, k) by {
                assert(!pair_at(gs, k + 1));
                assert(tail[k] == gs[k + 1]);
                if k + 1 < tail.len() {
                    assert(tail[k + 1] == gs[k + 2]);
                }
            }
            assert(gs[0] =~= seq![gs[0][0]]);
            assert(seq![single_code(gs[0][0])->Some_0] + per_char_codes(tail) =~= per_char_codes(gs));
        }
    }
}

/// Where the graphemes at the cursor are `n` then `g`, the unit `ng` is taken:
/// one code point for the pair, never the two of `n` and `g`.
pub proof fn lemma_ng_taken_whole(gs: Seq<Seq<char>>)
    requires
        grapheme_at(gs, 0, 'n'),
        grapheme_at(gs, 1, 'g'),
    ensures
        segment(gs) == prepend(seq![0x1829u16], segment(gs.skip(2))),
{
    assert(unit_spelling(gs) =~= seq!['n', 'g']);
}

} // verus!
