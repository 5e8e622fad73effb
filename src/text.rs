//! Splitting text into lines and words, and decoding UTF-16 code units.
use vstd::prelude::*;

verus! {

/// The texts of a sequence of string slices.
pub open spec fn views(gs: Seq<&str>) -> Seq<Seq<char>> {
    gs.map_values(|g: &str| g@)
}

/// The pieces of `s` between line feeds: one more than there are line feeds.
pub open spec fn lf_pieces(s: Seq<char>) -> Seq<Seq<char>>
    decreases s.len(),
{
    if s.len() == 0 {
        seq![Seq::empty()]
    } else {
        let p = lf_pieces(s.drop_last());
        if s.last() == '\n' {
            p.push(Seq::empty())
        } else {
            p.update(p.len() - 1, p.last().push(s.last()))
        }
    }
}

/// A line ended by `\r\n` loses its carriage return too.
pub open spec fn strip_cr(l: Seq<char>) -> Seq<char> {
    if l.len() > 0 && l.last() == '\r' {
        l.drop_last()
    } else {
        l
    }
}

/// The lines of a text: split at `\n` or `\r\n`, the final line ending optional.
pub open spec fn lines_of(s: Seq<char>) -> Seq<Seq<char>> {
    let p = lf_pieces(s);
    let ended = p.drop_last().map_values(|l: Seq<char>| strip_cr(l));
    if p.last().len() == 0 {
        ended
    } else {
        ended.push(p.last())
    }
}

/// The characters of the Unicode property White_Space.
pub open spec fn is_white_space(c: char) -> bool {
    let u = c as u32;
    (0x9 <= u <= 0xD) || u == 0x20 || u == 0x85 || u == 0xA0 || u == 0x1680 || (0x2000 <= u
        <= 0x200A) || u == 0x2028 || u == 0x2029 || u == 0x202F || u == 0x205F || u == 0x3000
}

/// The pieces of `s` between white-space characters, empty ones included.
pub open spec fn white_space_pieces(s: Seq<char>) -> Seq<Seq<char>>
    decreases s.len(),
{
    if s.len() == 0 {
        seq![Seq::empty()]
    } else {
        let p = white_space_pieces(s.drop_last());
        if is_white_space(s.last()) {
            p.push(Seq::empty())
        } else {
            p.update(p.len() - 1, p.last().push(s.last()))
        }
    }
}

/// The words of a line: its maximal runs of characters that are not white space.
pub open spec fn words_of(s: Seq<char>) -> Seq<Seq<char>> {
    white_space_pieces(s).filter(|w: Seq<char>| w.len() > 0)
}

/// Relies on `str::lines`: lines end at `\n` or `\r\n`, which are not part of
/// them; a last line ending adds no empty line.
#[verifier::external_body]
pub(crate) fn split_lines<'a>(text: &'a str) -> (r: Vec<&'a str>)
    ensures
        views(r@) == lines_of(text@),
{
    text.lines().collect()
}

/// Relies on `str::split_whitespace`: the non-empty runs between characters of
/// the property White_Space.
#[verifier::external_body]
pub(crate) fn split_words<'a>(line: &'a str) -> (r: Vec<&'a str>)
    ensures
        views(r@) == words_of(line@),
{
    line.split_whitespace().collect()
}

/// Whether a UTF-16 code unit is half of a surrogate pair.
pub open spec fn is_surrogate(u: u16) -> bool {
    0xD800 <= u <= 0xDFFF
}

/// Whether no code unit is half of a surrogate pair.
pub open spec fn no_surrogates(v: Seq<u16>) -> bool {
    forall|k: int| 0 <= k < v.len() ==> !is_surrogate(#[trigger] v[k])
}

/// Relies on `String::from_utf16`: code units outside the surrogate range each
/// decode to the character of that value.
#[verifier::external_body]
pub(crate) fn utf16_to_string(v: &Vec<u16>) -> (r: Option<String>)
    ensures
        no_surrogates(v@) ==> r is Some,
        no_surrogates(v@) ==> (r matches Some(s) ==> s@ == v@.map_values(|u: u16| u as char)),
{
    String::from_utf16(v).ok()
}

} // verus!
