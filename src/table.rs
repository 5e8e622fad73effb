//! The phoneme table: romanized spellings and the Manchu code points they stand for.
use vstd::prelude::*;

verus! {

/// The code point of a one-character spelling, if the table has one.
pub open spec fn single_code(c: char) -> Option<u16> {
    if c == 'a' {
        Some(0x1820u16)
    } else if c == 'e' {
        Some(0x185Du16)
    } else if c == 'i' {
        Some(0x1873u16)
    } else if c == 'o' {
        Some(0x1823u16)
    } else if c == 'u' {
        Some(0x1860u16)
    } else if c == '\u{16B}' || c == 'v' {
        Some(0x1861u16)
    } else if c == 'n' {
        Some(0x1828u16)
    } else if c == 'b' {
        Some(0x182Au16)
    } else if c == 'p' {
        Some(0x1866u16)
    } else if c == 's' {
        Some(0x1830u16)
    } else if c == '\u{161}' || c == 'x' {
        Some(0x1867u16)
    } else if c == 'k' {
        Some(0x1874u16)
    } else if c == 'g' {
        Some(0x1864u16)
    } else if c == 'h' {
        Some(0x1865u16)
    } else if c == 'l' {
        Some(0x182Fu16)
    } else if c == 'm' {
        Some(0x182Eu16)
    } else if c == 't' {
        Some(0x1868u16)
    } else if c == 'd' {
        Some(0x1869u16)
    } else if c == 'r' {
        Some(0x1875u16)
    } else if c == 'j' {
        Some(0x1835u16)
    } else if c == 'y' {
        Some(0x1836u16)
    } else if c == 'c' {
        Some(0x1834u16)
    } else if c == 'f' {
        Some(0x1876u16)
    } else if c == 'w' {
        Some(0x1838u16)
    } else {
        None
    }
}

/// The code point of a two-character spelling, if the table has one.
pub open spec fn double_code(c0: char, c1: char) -> Option<u16> {
    if c0 == 'n' && c1 == 'g' {
        Some(0x1829u16)
    } else if c0 == 'd' && c1 == 'z' {
        Some(0x186Fu16)
    } else if c0 == 'k' && c1 == '\'' {
        Some(0x183Bu16)
    } else if c0 == 'g' && c1 == '\'' {
        Some(0x186Cu16)
    } else if c0 == 'h' && c1 == '\'' {
        Some(0x186Du16)
    } else {
        None
    }
}

/// The code point of a three-character spelling, if the table has one.
pub open spec fn triple_code(c0: char, c1: char, c2: char) -> Option<u16> {
    if c0 == 't' && c1 == 's' && c2 == '\'' {
        Some(0x186Eu16)
    } else if c0 == 'c' && c1 == '\'' && c2 == 'y' {
        Some(0x1871u16)
    } else {
        None
    }
}

/// The code point that the table gives to a romanized spelling.
pub open spec fn phoneme_code(s: Seq<char>) -> Option<u16> {
    if s.len() == 1 {
        single_code(s[0])
    } else if s.len() == 2 {
        double_code(s[0], s[1])
    } else if s.len() == 3 {
        triple_code(s[0], s[1], s[2])
    } else {
        None
    }
}

/// Every code point of the table lies in the Manchu part of the Mongolian block.
pub open spec fn is_manchu_code(c: u16) -> bool {
    0x1820 <= c <= 0x1876
}

pub proof fn lemma_codes_are_manchu(s: Seq<char>)
    ensures
        phoneme_code(s) matches Some(c) ==> is_manchu_code(c),
{
}

/// The immutable table of romanized spellings.
pub struct LatinManchuMap {}

/// The phoneme table.
pub fn get_latin_manchu_map() -> (r: LatinManchuMap) {
    LatinManchuMap {  }
}

fn single_code_exec(c: char) -> (r: Option<u16>)
    ensures
        r == single_code(c),
{
    match c {
        'a' => Some(0x1820),
        'e' => Some(0x185D),
        'i' => Some(0x1873),
        'o' => Some(0x1823),
        'u' => Some(0x1860),
        '\u{16B}' | 'v' => Some(0x1861),
        'n' => Some(0x1828),
        'b' => Some(0x182A),
        'p' => Some(0x1866),
        's' => Some(0x1830),
        '\u{161}' | 'x' => Some(0x1867),
        'k' => Some(0x1874),
        'g' => Some(0x1864),
        'h' => Some(0x1865),
        'l' => Some(0x182F),
        'm' => Some(0x182E),
        't' => Some(0x1868),
        'd' => Some(0x1869),
        'r' => Some(0x1875),
        'j' => Some(0x1835),
        'y' => Some(0x1836),
        'c' => Some(0x1834),
        'f' => Some(0x1876),
        'w' => Some(0x1838),
        _ => None,
    }
}

impl LatinManchuMap {
    /// Looks a romanized spelling up.
    pub fn get(&self, spelling: &str) -> (r: Option<u16>)
        ensures
            r == phoneme_code(spelling@),
    {
        let n = spelling.unicode_len();
        if n == 1 {
            single_code_exec(spelling.get_char(0))
        } else if n == 2 {
            let c0 = spelling.get_char(0);
            let c1 = spelling.get_char(1);
            if c0 == 'n' && c1 == 'g' {
                Some(0x1829)
            } else if c0 == 'd' && c1 == 'z' {
                Some(0x186F)
            } else if c0 == 'k' && c1 == '\'' {
                Some(0x183B)
            } else if c0 == 'g' && c1 == '\'' {
                Some(0x186C)
            } else if c0 == 'h' && c1 == '\'' {
                Some(0x186D)
            } else {
                None
            }
        } else if n == 3 {
            let c0 = spelling.get_char(0);
            let c1 = spelling.get_char(1);
            let c2 = spelling.get_char(2);
            if c0 == 't' && c1 == 's' && c2 == '\'' {
                Some(0x186E)
            } else if c0 == 'c' && c1 == '\'' && c2 == 'y' {
                Some(0x1871)
            } else {
                None
            }
        } else {
            None
        }
    }
}

} // verus!
