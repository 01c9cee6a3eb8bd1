//! Output encoding: each color becomes a true-color ANSI escape prefix and
//! one glyph from a fixed 70-entry brightness ramp indexed by opacity; a row
//! of colors becomes the concatenation of its cells' units.

use vstd::prelude::*;
use crate::fixed::ONE;
use crate::fixed::HALF;
use crate::fixed::tdiv;
use crate::fixed::clamp_s;
use crate::fixed::clamp_i64;
use crate::objects::Color;

verus! {

/// The glyph of ramp index `i` (0 to 69), in order of perceived brightness.
#[verifier::opaque]
pub open spec fn glyph_s(i: int) -> char {
    if i == 0 {
        '.'
    } else if i == 1 {
        '\''
    } else if i == 2 {
        '`'
    } else if i == 3 {
        '^'
    } else if i == 4 {
        '"'
    } else if i == 5 {
        ','
    } else if i == 6 {
        ':'
    } else if i == 7 {
        ';'
    } else if i == 8 {
        'I'
    } else if i == 9 {
        'l'
    } else if i == 10 {
        '!'
    } else if i == 11 {
        'i'
    } else if i == 12 {
        '>'
    } else if i == 13 {
        '<'
    } else if i == 14 {
        '~'
    } else if i == 15 {
        '+'
    } else if i == 16 {
        '_'
    } else if i == 17 {
        '-'
    } else if i == 18 {
        '?'
    } else if i == 19 {
        ']'
    } else if i == 20 {
        '['
    } else if i == 21 {
        '}'
    } else if i == 22 {
        '{'
    } else if i == 23 {
        '1'
    } else if i == 24 {
        ')'
    } else if i == 25 {
        '('
    } else if i == 26 {
        '|'
    } else if i == 27 {
        '\\'
    } else if i == 28 {
        '/'
    } else if i == 29 {
        't'
    } else if i == 30 {
        'f'
    } else if i == 31 {
        'j'
    } else if i == 32 {
        'r'
    } else if i == 33 {
        'x'
    } else if i == 34 {
        'n'
    } else if i == 35 {
        'u'
    } else if i == 36 {
        'v'
    } else if i == 37 {
        'c'
    } else if i == 38 {
        'z'
    } else if i == 39 {
        'X'
    } else if i == 40 {
        'Y'
    } else if i == 41 {
        'U'
    } else if i == 42 {
        'J'
    } else if i == 43 {
        'C'
    } else if i == 44 {
        'L'
    } else if i == 45 {
        'Q'
    } else if i == 46 {
        '0'
    } else if i == 47 {
        'O'
    } else if i == 48 {
        'Z'
    } else if i == 49 {
        'm'
    } else if i == 50 {
        'w'
    } else if i == 51 {
        'q'
    } else if i == 52 {
        'p'
    } else if i == 53 {
        'd'
    } else if i == 54 {
        'b'
    } else if i == 55 {
        'k'
    } else if i == 56 {
        'h'
    } else if i == 57 {
        'a'
    } else if i == 58 {
        'o'
    } else if i == 59 {
        '*'
    } else if i == 60 {
        '#'
    } else if i == 61 {
        'M'
    } else if i == 62 {
        'W'
    } else if i == 63 {
        '&'
    } else if i == 64 {
        '8'
    } else if i == 65 {
        '%'
    } else if i == 66 {
        'B'
    } else if i == 67 {
        '@'
    } else if i == 68 {
        '$'
    } else {
        '█'
    }
}

/// The ramp index of an opacity: `round(a * 69)` for `a` in `[0, ONE]`,
/// saturated to the ramp's ends outside that range (where the original
/// arithmetic had no defined glyph).
pub open spec fn glyph_index_s(a: int) -> int {
    if a <= 0 {
        0
    } else if a >= ONE {
        69
    } else {
        tdiv(a * 69 + HALF as int, ONE as int)
    }
}

/// A channel as a byte: clamped to `[0, ONE]`, scaled to 255, rounded.
pub open spec fn byte_s(ch: int) -> int {
    tdiv(clamp_s(ch, 0, ONE as int) * 255 + HALF as int, ONE as int)
}

/// The decimal digit character of `d` (0 to 9).
#[verifier::opaque]
pub open spec fn digit_s(d: int) -> char {
    if d == 0 {
        '0'
    } else if d == 1 {
        '1'
    } else if d == 2 {
        '2'
    } else if d == 3 {
        '3'
    } else if d == 4 {
        '4'
    } else if d == 5 {
        '5'
    } else if d == 6 {
        '6'
    } else if d == 7 {
        '7'
    } else if d == 8 {
        '8'
    } else {
        '9'
    }
}

/// The decimal text of a byte value, without leading zeros.
pub open spec fn dec_s(n: int) -> Seq<char> {
    if n < 10 {
        seq![digit_s(n)]
    } else if n < 100 {
        seq![digit_s(n / 10), digit_s(n % 10)]
    } else {
        seq![digit_s(n / 100), digit_s((n / 10) % 10), digit_s(n % 10)]
    }
}

/// The number of characters of `dec_s`.
pub open spec fn dec_len_s(n: int) -> int {
    if n < 10 {
        1
    } else if n < 100 {
        2
    } else {
        3
    }
}

/// The full unit one color encodes to: the true-color escape prefix, the
/// three channel bytes separated by semicolons, `m`, and the ramp glyph.
pub open spec fn ansi_s(c: Color) -> Seq<char> {
    seq!['\u{1b}', '[', '3', '8', ';', '2', ';'] + dec_s(byte_s(c.r as int)) + seq![';']
        + dec_s(byte_s(c.g as int)) + seq![';'] + dec_s(byte_s(c.b as int)) + seq!['m']
        + seq![glyph_s(glyph_index_s(c.a as int))]
}

/// The characters a whole row of colors encodes to, left to right.
pub open spec fn row_encode_s(row: Seq<Color>) -> Seq<char>
    decreases row.len(),
{
    if row.len() == 0 {
        Seq::empty()
    } else {
        row_encode_s(row.drop_last()) + ansi_s(row.last())
    }
}

/// Append one ramp glyph.
fn push_glyph(s: &mut String, i: u64)
    requires
        0 <= i <= 69,
    ensures
        final(s)@ == old(s)@ + seq![glyph_s(i as int)],
{
    if i == 0 {
        s.append(".");
        proof {
            reveal(glyph_s);
            reveal(digit_s);
            reveal_strlit(".");
            assert(final(s)@ =~= old(s)@ + seq![glyph_s(i as int)]);
        }
    } else if i == 1 {
        s.append("'");
        proof {
            reveal(glyph_s);
            reveal(digit_s);
            reveal_strlit("'");
            assert(final(s)@ =~= old(s)@ + seq![glyph_s(i as int)]);
        }
    } else if i == 2 {
        s.append("`");
        proof {
            reveal(glyph_s);
            reveal(digit_s);
            reveal_strlit("`");
            assert(final(s)@ =~= old(s)@ + seq![glyph_s(i as int)]);
        }
    } else if i == 3 {
        s.append("^");
        proof {
            reveal(glyph_s);
            reveal(digit_s);
            reveal_strlit("^");
            assert(final(s)@ =~= old(s)@ + seq![glyph_s(i as int)]);
        }
    } else if i == 4 {
        s.append("\"");
        proof {
            reveal(glyph_s);
            reveal(digit_s);
            reveal_strlit("\"");
            assert(final(s)@ =~= old(s)@ + seq![glyph_s(i as int)]);
        }
    } else if i == 5 {
        s.append(",");
        proof {
            reveal(glyph_s);
            reveal(digit_s);
            reveal_strlit(",");
            assert(final(s)@ =~= old(s)@ + seq![glyph_s(i as int)]);
        }
    } else if i == 6 {
        s.append(":");
        proof {
            reveal(glyph_s);
            reveal(digit_s);
            reveal_strlit(":");
            assert(final(s)@ =~= old(s)@ + seq![glyph_s(i as int)]);
        }
    } else if i == 7 {
        s.append(";");
        proof {
            reveal(glyph_s);
            reveal(digit_s);
            reveal_strlit(";");
            assert(final(s)@ =~= old(s)@ + seq![glyph_s(i as int)]);
        }
    } else if i == 8 {
        s.append("I");
        proof {
            reveal(glyph_s);
            reveal(digit_s);
            reveal_strlit("I");
            assert(final(s)@ =~= old(s)@ + seq![glyph_s(i as int)]);
        }
    } else if i == 9 {
        s.append("l");
        proof {
            reveal(glyph_s);
            reveal(digit_s);
            reveal_strlit("l");
            assert(final(s)@ =~= old(s)@ + seq![glyph_s(i as int)]);
        }
    } else if i == 10 {
        s.append("!");
        proof {
            reveal(glyph_s);
            reveal(digit_s);
            reveal_strlit("!");
            assert(final(s)@ =~= old(s)@ + seq![glyph_s(i as int)]);
        }
    } else if i == 11 {
        s.append("i");
        proof {
            reveal(glyph_s);
            reveal(digit_s);
            reveal_strlit("i");
            assert(final(s)@ =~= old(s)@ + seq![glyph_s(i as int)]);
        }
    } else if i == 12 {
        s.append(">");
        proof {
            reveal(glyph_s);
            reveal(digit_s);
            reveal_strlit(">");
            assert(final(s)@ =~= old(s)@ + seq![glyph_s(i as int)]);
        }
    } else if i == 13 {
        s.append("<");
        proof {
            reveal(glyph_s);
            reveal(digit_s);
            reveal_strlit("<");
            assert(final(s)@ =~= old(s)@ + seq![glyph_s(i as int)]);
        }
    } else if i == 14 {
        s.append("~");
        proof {
            reveal(glyph_s);
            reveal(digit_s);
            reveal_strlit("~");
            assert(final(s)@ =~= old(s)@ + seq![glyph_s(i as int)]);
        }
    } else if i == 15 {
        s.append("+");
        proof {
            reveal(glyph_s);
            reveal(digit_s);
            reveal_strlit("+");
            assert(final(s)@ =~= old(s)@ + seq![glyph_s(i as int)]);
        }
    } else if i == 16 {
        s.append("_");
        proof {
            reveal(glyph_s);
            reveal(digit_s);
            reveal_strlit("_");
            assert(final(s)@ =~= old(s)@ + seq![glyph_s(i as int)]);
        }
    } else if i == 17 {
        s.append("-");
        proof {
            reveal(glyph_s);
            reveal(digit_s);
            reveal_strlit("-");
            assert(final(s)@ =~= old(s)@ + seq![glyph_s(i as int)]);
        }
    } else if i == 18 {
        s.append("?");
        proof {
            reveal(glyph_s);
            reveal(digit_s);
            reveal_strlit("?");
            assert(final(s)@ =~= old(s)@ + seq![glyph_s(i as int)]);
        }
    } else if i == 19 {
        s.append("]");
        proof {
            reveal(glyph_s);
            reveal(digit_s);
            reveal_strlit("]");
            assert(final(s)@ =~= old(s)@ + seq![glyph_s(i as int)]);
        }
    } else if i == 20 {
        s.append("[");
        proof {
            reveal(glyph_s);
            reveal(digit_s);
            reveal_strlit("[");
            assert(final(s)@ =~= old(s)@ + seq![glyph_s(i as int)]);
        }
    } else if i == 21 {
        s.append("}");
        proof {
            reveal(glyph_s);
            reveal(digit_s);
            reveal_strlit("}");
            assert(final(s)@ =~= old(s)@ + seq![glyph_s(i as int)]);
        }
    } else if i == 22 {
        s.append("{");
        proof {
            reveal(glyph_s);
            reveal(digit_s);
            reveal_strlit("{");
            assert(final(s)@ =~= old(s)@ + seq![glyph_s(i as int)]);
        }
    } else if i == 23 {
        s.append("1");
        proof {
            reveal(glyph_s);
            reveal(digit_s);
            reveal_strlit("1");
            assert(final(s)@ =~= old(s)@ + seq![glyph_s(i as int)]);
        }
    } else if i == 24 {
        s.append(")");
        proof {
            reveal(glyph_s);
            reveal(digit_s);
            reveal_strlit(")");
            assert(final(s)@ =~= old(s)@ + seq![glyph_s(i as int)]);
        }
    } else if i == 25 {
        s.append("(");
        proof {
            reveal(glyph_s);
            reveal(digit_s);
            reveal_strlit("(");
            assert(final(s)@ =~= old(s)@ + seq![glyph_s(i as int)]);
        }
    } else if i == 26 {
        s.append("|");
        proof {
            reveal(glyph_s);
            reveal(digit_s);
            reveal_strlit("|");
            assert(final(s)@ =~= old(s)@ + seq![glyph_s(i as int)]);
        }
    } else if i == 27 {
        s.append("\\");
        proof {
            reveal(glyph_s);
            reveal(digit_s);
            reveal_strlit("\\");
            assert(final(s)@ =~= old(s)@ + seq![glyph_s(i as int)]);
        }
    } else if i == 28 {
        s.append("/");
        proof {
            reveal(glyph_s);
            reveal(digit_s);
            reveal_strlit("/");
            assert(final(s)@ =~= old(s)@ + seq![glyph_s(i as int)]);
        }
    } else if i == 29 {
        s.append("t");
        proof {
            reveal(glyph_s);
            reveal(digit_s);
            reveal_strlit("t");
            assert(final(s)@ =~= old(s)@ + seq![glyph_s(i as int)]);
        }
    } else if i == 30 {
        s.append("f");
        proof {
            reveal(glyph_s);
            reveal(digit_s);
            reveal_strlit("f");
            assert(final(s)@ =~= old(s)@ + seq![glyph_s(i as int)]);
        }
    } else if i == 31 {
        s.append("j");
        proof {
            reveal(glyph_s);
            reveal(digit_s);
            reveal_strlit("j");
            assert(final(s)@ =~= old(s)@ + seq![glyph_s(i as int)]);
        }
    } else if i == 32 {
        s.append("r");
        proof {
            reveal(glyph_s);
            reveal(digit_s);
            reveal_strlit("r");
            assert(final(s)@ =~= old(s)@ + seq![glyph_s(i as int)]);
        }
    } else if i == 33 {
        s.append("x");
        proof {
            reveal(glyph_s);
            reveal(digit_s);
            reveal_strlit("x");
            assert(final(s)@ =~= old(s)@ + seq![glyph_s(i as int)]);
        }
    } else if i == 34 {
        s.append("n");
        proof {
            reveal(glyph_s);
            reveal(digit_s);
            reveal_strlit("n");
            assert(final(s)@ =~= old(s)@ + seq![glyph_s(i as int)]);
        }
    } else if i == 35 {
        s.append("u");
        proof {
            reveal(glyph_s);
            reveal(digit_s);
            reveal_strlit("u");
            assert(final(s)@ =~= old(s)@ + seq![glyph_s(i as int)]);
        }
    } else if i == 36 {
        s.append("v");
        proof {
            reveal(glyph_s);
            reveal(digit_s);
            reveal_strlit("v");
            assert(final(s)@ =~= old(s)@ + seq![glyph_s(i as int)]);
        }
    } else if i == 37 {
        s.append("c");
        proof {
            reveal(glyph_s);
            reveal(digit_s);
            reveal_strlit("c");
            assert(final(s)@ =~= old(s)@ + seq![glyph_s(i as int)]);
        }
    } else if i == 38 {
        s.append("z");
        proof {
            reveal(glyph_s);
            reveal(digit_s);
            reveal_strlit("z");
            assert(final(s)@ =~= old(s)@ + seq![glyph_s(i as int)]);
        }
    } else if i == 39 {
        s.append("X");
        proof {
            reveal(glyph_s);
            reveal(digit_s);
            reveal_strlit("X");
            assert(final(s)@ =~= old(s)@ + seq![glyph_s(i as int)]);
        }
    } else if i == 40 {
        s.append("Y");
        proof {
            reveal(glyph_s);
            reveal(digit_s);
            reveal_strlit("Y");
            assert(final(s)@ =~= old(s)@ + seq![glyph_s(i as int)]);
        }
    } else if i == 41 {
        s.append("U");
        proof {
            reveal(glyph_s);
            reveal(digit_s);
            reveal_strlit("U");
            assert(final(s)@ =~= old(s)@ + seq![glyph_s(i as int)]);
        }
    } else if i == 42 {
        s.append("J");
        proof {
            reveal(glyph_s);
            reveal(digit_s);
            reveal_strlit("J");
            assert(final(s)@ =~= old(s)@ + seq![glyph_s(i as int)]);
        }
    } else if i == 43 {
        s.append("C");
        proof {
            reveal(glyph_s);
            reveal(digit_s);
            reveal_strlit("C");
            assert(final(s)@ =~= old(s)@ + seq![glyph_s(i as int)]);
        }
    } else if i == 44 {
        s.append("L");
        proof {
            reveal(glyph_s);
            reveal(digit_s);
            reveal_strlit("L");
            assert(final(s)@ =~= old(s)@ + seq![glyph_s(i as int)]);
        }
    } else if i == 45 {
        s.append("Q");
        proof {
            reveal(glyph_s);
            reveal(digit_s);
            reveal_strlit("Q");
            assert(final(s)@ =~= old(s)@ + seq![glyph_s(i as int)]);
        }
    } else if i == 46 {
        s.append("0");
        proof {
            reveal(glyph_s);
            reveal(digit_s);
            reveal_strlit("0");
            assert(final(s)@ =~= old(s)@ + seq![glyph_s(i as int)]);
        }
    } else if i == 47 {
        s.append("O");
        proof {
            reveal(glyph_s);
            reveal(digit_s);
            reveal_strlit("O");
            assert(final(s)@ =~= old(s)@ + seq![glyph_s(i as int)]);
        }
    } else if i == 48 {
        s.append("Z");
        proof {
            reveal(glyph_s);
            reveal(digit_s);
            reveal_strlit("Z");
            assert(final(s)@ =~= old(s)@ + seq![glyph_s(i as int)]);
        }
    } else if i == 49 {
        s.append("m");
        proof {
            reveal(glyph_s);
            reveal(digit_s);
            reveal_strlit("m");
            assert(final(s)@ =~= old(s)@ + seq![glyph_s(i as int)]);
        }
    } else if i == 50 {
        s.append("w");
        proof {
            reveal(glyph_s);
            reveal(digit_s);
            reveal_strlit("w");
            assert(final(s)@ =~= old(s)@ + seq![glyph_s(i as int)]);
        }
    } else if i == 51 {
        s.append("q");
        proof {
            reveal(glyph_s);
            reveal(digit_s);
            reveal_strlit("q");
            assert(final(s)@ =~= old(s)@ + seq![glyph_s(i as int)]);
        }
    } else if i == 52 {
        s.append("p");
        proof {
            reveal(glyph_s);
            reveal(digit_s);
            reveal_strlit("p");
            assert(final(s)@ =~= old(s)@ + seq![glyph_s(i as int)]);
        }
    } else if i == 53 {
        s.append("d");
        proof {
            reveal(glyph_s);
            reveal(digit_s);
            reveal_strlit("d");
            assert(final(s)@ =~= old(s)@ + seq![glyph_s(i as int)]);
        }
    } else if i == 54 {
        s.append("b");
        proof {
            reveal(glyph_s);
            reveal(digit_s);
            reveal_strlit("b");
            assert(final(s)@ =~= old(s)@ + seq![glyph_s(i as int)]);
        }
    } else if i == 55 {
        s.append("k");
        proof {
            reveal(glyph_s);
            reveal(digit_s);
            reveal_strlit("k");
            assert(final(s)@ =~= old(s)@ + seq![glyph_s(i as int)]);
        }
    } else if i == 56 {
        s.append("h");
        proof {
            reveal(glyph_s);
            reveal(digit_s);
            reveal_strlit("h");
            assert(final(s)@ =~= old(s)@ + seq![glyph_s(i as int)]);
        }
    } else if i == 57 {
        s.append("a");
        proof {
            reveal(glyph_s);
            reveal(digit_s);
            reveal_strlit("a");
            assert(final(s)@ =~= old(s)@ + seq![glyph_s(i as int)]);
        }
    } else if i == 58 {
        s.append("o");
        proof {
            reveal(glyph_s);
            reveal(digit_s);
            reveal_strlit("o");
            assert(final(s)@ =~= old(s)@ + seq![glyph_s(i as int)]);
        }
    } else if i == 59 {
        s.append("*");
        proof {
            reveal(glyph_s);
            reveal(digit_s);
            reveal_strlit("*");
            assert(final(s)@ =~= old(s)@ + seq![glyph_s(i as int)]);
        }
    } else if i == 60 {
        s.append("#");
        proof {
            reveal(glyph_s);
            reveal(digit_s);
            reveal_strlit("#");
            assert(final(s)@ =~= old(s)@ + seq![glyph_s(i as int)]);
        }
    } else if i == 61 {
        s.append("M");
        proof {
            reveal(glyph_s);
            reveal(digit_s);
            reveal_strlit("M");
            assert(final(s)@ =~= old(s)@ + seq![glyph_s(i as int)]);
        }
    } else if i == 62 {
        s.append("W");
        proof {
            reveal(glyph_s);
            reveal(digit_s);
            reveal_strlit("W");
            assert(final(s)@ =~= old(s)@ + seq![glyph_s(i as int)]);
        }
    } else if i == 63 {
        s.append("&");
        proof {
            reveal(glyph_s);
            reveal(digit_s);
            reveal_strlit("&");
            assert(final(s)@ =~= old(s)@ + seq![glyph_s(i as int)]);
        }
    } else if i == 64 {
        s.append("8");
        proof {
            reveal(glyph_s);
            reveal(digit_s);
            reveal_strlit("8");
            assert(final(s)@ =~= old(s)@ + seq![glyph_s(i as int)]);
        }
    } else if i == 65 {
        s.append("%");
        proof {
            reveal(glyph_s);
            reveal(digit_s);
            reveal_strlit("%");
            assert(final(s)@ =~= old(s)@ + seq![glyph_s(i as int)]);
        }
    } else if i == 66 {
        s.append("B");
        proof {
            reveal(glyph_s);
            reveal(digit_s);
            reveal_strlit("B");
            assert(final(s)@ =~= old(s)@ + seq![glyph_s(i as int)]);
        }
    } else if i == 67 {
        s.append("@");
        proof {
            reveal(glyph_s);
            reveal(digit_s);
            reveal_strlit("@");
            assert(final(s)@ =~= old(s)@ + seq![glyph_s(i as int)]);
        }
    } else if i == 68 {
        s.append("$");
        proof {
            reveal(glyph_s);
            reveal(digit_s);
            reveal_strlit("$");
            assert(final(s)@ =~= old(s)@ + seq![glyph_s(i as int)]);
        }
    } else {
        s.append("█");
        proof {
            reveal(glyph_s);
            reveal(digit_s);
            reveal_strlit("█");
            assert(final(s)@ =~= old(s)@ + seq![glyph_s(i as int)]);
        }
    }
}

/// Append one decimal digit.
fn push_digit(s: &mut String, d: u64)
    requires
        0 <= d <= 9,
    ensures
        final(s)@ == old(s)@ + seq![digit_s(d as int)],
{
    if d == 0 {
        s.append("0");
        proof {
            reveal(glyph_s);
            reveal(digit_s);
            reveal_strlit("0");
            assert(final(s)@ =~= old(s)@ + seq![digit_s(d as int)]);
        }
    } else if d == 1 {
        s.append("1");
        proof {
            reveal(glyph_s);
            reveal(digit_s);
            reveal_strlit("1");
            assert(final(s)@ =~= old(s)@ + seq![digit_s(d as int)]);
        }
    } else if d == 2 {
        s.append("2");
        proof {
            reveal(glyph_s);
            reveal(digit_s);
            reveal_strlit("2");
            assert(final(s)@ =~= old(s)@ + seq![digit_s(d as int)]);
        }
    } else if d == 3 {
        s.append("3");
        proof {
            reveal(glyph_s);
            reveal(digit_s);
            reveal_strlit("3");
            assert(final(s)@ =~= old(s)@ + seq![digit_s(d as int)]);
        }
    } else if d == 4 {
        s.append("4");
        proof {
            reveal(glyph_s);
            reveal(digit_s);
            reveal_strlit("4");
            assert(final(s)@ =~= old(s)@ + seq![digit_s(d as int)]);
        }
    } else if d == 5 {
        s.append("5");
        proof {
            reveal(glyph_s);
            reveal(digit_s);
            reveal_strlit("5");
            assert(final(s)@ =~= old(s)@ + seq![digit_s(d as int)]);
        }
    } else if d == 6 {
        s.append("6");
        proof {
            reveal(glyph_s);
            reveal(digit_s);
            reveal_strlit("6");
            assert(final(s)@ =~= old(s)@ + seq![digit_s(d as int)]);
        }
    } else if d == 7 {
        s.append("7");
        proof {
            reveal(glyph_s);
            reveal(digit_s);
            reveal_strlit("7");
            assert(final(s)@ =~= old(s)@ + seq![digit_s(d as int)]);
        }
    } else if d == 8 {
        s.append("8");
        proof {
            reveal(glyph_s);
            reveal(digit_s);
            reveal_strlit("8");
            assert(final(s)@ =~= old(s)@ + seq![digit_s(d as int)]);
        }
    } else {
        s.append("9");
        proof {
            reveal(glyph_s);
            reveal(digit_s);
            reveal_strlit("9");
            assert(final(s)@ =~= old(s)@ + seq![digit_s(d as int)]);
        }
    }
}

/// Append the decimal text of a byte value.
fn push_dec(s: &mut String, n: u64)
    requires
        n <= 255,
    ensures
        final(s)@ == old(s)@ + dec_s(n as int),
{
    if n >= 100 {
        push_digit(s, n / 100);
        push_digit(s, (n / 10) % 10);
        push_digit(s, n % 10);
        proof {
            assert(final(s)@ =~= old(s)@ + dec_s(n as int));
        }
    } else if n >= 10 {
        push_digit(s, n / 10);
        push_digit(s, n % 10);
        proof {
            assert(final(s)@ =~= old(s)@ + dec_s(n as int));
        }
    } else {
        push_digit(s, n);
        proof {
            assert(final(s)@ =~= old(s)@ + dec_s(n as int));
        }
    }
}

/// One channel as a byte.
fn channel_byte(ch: i64) -> (r: u64)
    ensures
        r == byte_s(ch as int),
        r <= 255,
{
    let c: i64 = clamp_i64(ch, 0, ONE);
    let scaled: u64 = (c as u64) * 255 + (HALF as u64);
    let r: u64 = scaled / (ONE as u64);
    proof {
        assert(r == byte_s(ch as int));
        vstd::arithmetic::div_mod::lemma_div_is_ordered(
            scaled as int,
            255 * ONE + HALF,
            ONE as int,
        );
    }
    r
}

impl Color {
    /// Encode this color as its ANSI true-color escape prefix and glyph.
    pub fn to_ansi(&self) -> (r: String)
        ensures
            r@ == ansi_s(*self),
    {
        let mut s = String::new();
        s.append("\u{1b}[38;2;");
        proof {
            reveal(glyph_s);
            reveal(digit_s);
            reveal_strlit("\u{1b}[38;2;");
            assert(s@ =~= seq!['\u{1b}', '[', '3', '8', ';', '2', ';']);
        }
        push_dec(&mut s, channel_byte(self.r));
        s.append(";");
        proof {
            reveal(glyph_s);
            reveal(digit_s);
            reveal_strlit(";");
        }
        push_dec(&mut s, channel_byte(self.g));
        s.append(";");
        proof {
            reveal(glyph_s);
            reveal(digit_s);
            reveal_strlit(";");
        }
        push_dec(&mut s, channel_byte(self.b));
        s.append("m");
        proof {
            reveal(glyph_s);
            reveal(digit_s);
            reveal_strlit("m");
        }
        let gi: u64 = glyph_index(self.a);
        push_glyph(&mut s, gi);
        proof {
            assert(s@ =~= ansi_s(*self));
        }
        s
    }
}

/// The ramp index of an opacity.
fn glyph_index(a: i64) -> (r: u64)
    ensures
        r == glyph_index_s(a as int),
        r <= 69,
{
    if a <= 0 {
        0
    } else if a >= ONE {
        69
    } else {
        let scaled: u64 = (a as u64) * 69 + (HALF as u64);
        let r: u64 = scaled / (ONE as u64);
        proof {
            vstd::arithmetic::div_mod::lemma_div_is_ordered(
                scaled as int,
                70 * ONE,
                ONE as int,
            );
            vstd::arithmetic::div_mod::lemma_div_multiples_vanish(70, ONE as int);
        }
        r
    }
}

/// Encode a row of colors as one string of per-cell units.
pub fn encode_row(row: &Vec<Color>) -> (r: String)
    ensures
        r@ == row_encode_s(row@),
{
    let mut s = String::new();
    let mut i: usize = 0;
    while i < row.len()
        invariant
            i <= row@.len(),
            s@ == row_encode_s(row@.take(i as int)),
        decreases row@.len() - i,
    {
        let unit = row[i].to_ansi();
        s.append(unit.as_str());
        proof {
            assert(row@.take(i + 1).drop_last() =~= row@.take(i as int));
            assert(row@.take(i + 1).last() == row@[i as int]);
        }
        i = i + 1;
    }
    proof {
        assert(row@.take(row@.len() as int) =~= row@);
    }
    s
}

/// The length of one encoded unit: the 7-character prefix, the three byte
/// texts, two semicolons, `m`, and the glyph: 11 characters plus the digits.
pub open spec fn ansi_len_s(c: Color) -> int {
    11 + dec_len_s(byte_s(c.r as int)) + dec_len_s(byte_s(c.g as int)) + dec_len_s(
        byte_s(c.b as int),
    )
}

/// The length of an encoded row: the sum of its cells' unit lengths.
pub open spec fn row_len_s(row: Seq<Color>) -> int
    decreases row.len(),
{
    if row.len() == 0 {
        0
    } else {
        row_len_s(row.drop_last()) + ansi_len_s(row.last())
    }
}

/// The encoded text of a single color has exactly `ansi_len_s` characters:
/// the output length is a function of the channel bytes alone.
pub proof fn lemma_ansi_len(c: Color)
    ensures
        ansi_s(c).len() == ansi_len_s(c),
{
}

/// The encoded text of a row has exactly `row_len_s` characters: for a
/// given buffer the output length is determined by the escape format.
pub proof fn lemma_row_encode_len(row: Seq<Color>)
    ensures
        row_encode_s(row).len() == row_len_s(row),
    decreases row.len(),
{
    if row.len() == 0 {
    } else {
        lemma_row_encode_len(row.drop_last());
        lemma_ansi_len(row.last());
    }
}

} // verus!
