//! The recovery code: `QRE-` and four groups of four uppercase hex digits.

use vstd::prelude::*;
use crate::text::string_push;

verus! {

/// The character for a hex digit, uppercase.
pub open spec fn hex_digit(n: int) -> char {
    if n == 0 {
        '0'
    } else if n == 1 {
        '1'
    } else if n == 2 {
        '2'
    } else if n == 3 {
        '3'
    } else if n == 4 {
        '4'
    } else if n == 5 {
        '5'
    } else if n == 6 {
        '6'
    } else if n == 7 {
        '7'
    } else if n == 8 {
        '8'
    } else if n == 9 {
        '9'
    } else if n == 10 {
        'A'
    } else if n == 11 {
        'B'
    } else if n == 12 {
        'C'
    } else if n == 13 {
        'D'
    } else if n == 14 {
        'E'
    } else {
        'F'
    }
}

/// Whether `c` is an uppercase hex digit.
pub open spec fn is_hex_digit(c: char) -> bool {
    ('0' <= c && c <= '9') || ('A' <= c && c <= 'F')
}

/// The four hex digits of a 16-bit number, most significant first.
pub open spec fn hex4(x: u16) -> Seq<char> {
    seq![hex_digit(x as int / 4096), hex_digit(x as int / 256 % 16), hex_digit(x as int / 16 % 16), hex_digit(x as int % 16)]
}

/// The recovery code that four 16-bit numbers spell.
pub open spec fn recovery_code_text(groups: Seq<u16>) -> Seq<char>
    recommends
        groups.len() == 4,
{
    seq!['Q', 'R', 'E', '-'] + hex4(groups[0]) + seq!['-'] + hex4(groups[1]) + seq!['-'] + hex4(groups[2])
        + seq!['-'] + hex4(groups[3])
}

/// Whether `code` has the shape of a recovery code: 23 characters, the
/// prefix, hyphens between the groups, uppercase hex digits elsewhere.
pub open spec fn is_recovery_code(code: Seq<char>) -> bool {
    &&& code.len() == 23
    &&& code[0] == 'Q'
    &&& code[1] == 'R'
    &&& code[2] == 'E'
    &&& forall|i: int| 0 <= i < 23 ==> (if i == 3 || i == 8 || i == 13 || i == 18 {
        code[i] == '-'
    } else if i >= 4 {
        is_hex_digit(#[trigger] code[i])
    } else {
        true
    })
}

/// Every hex digit character is one.
proof fn lemma_hex_digit(n: int)
    requires
        0 <= n < 16,
    ensures
        is_hex_digit(hex_digit(n)),
{
}

/// A code that was formatted from four numbers has the shape of a
/// recovery code.
pub proof fn lemma_formatted_code_is_valid(groups: Seq<u16>)
    requires
        groups.len() == 4,
    ensures
        is_recovery_code(recovery_code_text(groups)),
{
    let code = recovery_code_text(groups);
    assert(code.len() == 23);
    assert forall|i: int| 0 <= i < 23 implies (if i == 3 || i == 8 || i == 13 || i == 18 {
        code[i] == '-'
    } else if i >= 4 {
        is_hex_digit(#[trigger] code[i])
    } else {
        true
    }) by {
        let g = groups[(i - 4) / 5];
        lemma_hex_digit(g as int / 4096);
        lemma_hex_digit(g as int / 256 % 16);
        lemma_hex_digit(g as int / 16 % 16);
        lemma_hex_digit(g as int % 16);
    }
}

/// The character for the hex digit `n`.
fn hex_char(n: u16) -> (c: char)
    requires
        n < 16,
    ensures
        c == hex_digit(n as int),
{
    if n == 0 {
        '0'
    } else if n == 1 {
        '1'
    } else if n == 2 {
        '2'
    } else if n == 3 {
        '3'
    } else if n == 4 {
        '4'
    } else if n == 5 {
        '5'
    } else if n == 6 {
        '6'
    } else if n == 7 {
        '7'
    } else if n == 8 {
        '8'
    } else if n == 9 {
        '9'
    } else if n == 10 {
        'A'
    } else if n == 11 {
        'B'
    } else if n == 12 {
        'C'
    } else if n == 13 {
        'D'
    } else if n == 14 {
        'E'
    } else {
        'F'
    }
}

/// Appends the four hex digits of `x`.
fn push_hex4(out: &mut String, x: u16)
    ensures
        final(out)@ == old(out)@ + hex4(x),
{
    string_push(out, hex_char(x / 4096));
    string_push(out, hex_char(x / 256 % 16));
    string_push(out, hex_char(x / 16 % 16));
    string_push(out, hex_char(x % 16));
    assert(out@ =~= old(out)@ + hex4(x));
}

/// Spells a recovery code from four 16-bit numbers.
pub fn format_recovery_code(groups: &[u16; 4]) -> (code: String)
    ensures
        code@ == recovery_code_text(groups@),
{
    let mut code = String::new();
    string_push(&mut code, 'Q');
    string_push(&mut code, 'R');
    string_push(&mut code, 'E');
    string_push(&mut code, '-');
    push_hex4(&mut code, groups[0]);
    string_push(&mut code, '-');
    push_hex4(&mut code, groups[1]);
    string_push(&mut code, '-');
    push_hex4(&mut code, groups[2]);
    string_push(&mut code, '-');
    push_hex4(&mut code, groups[3]);
    assert(code@ =~= recovery_code_text(groups@));
    code
}

/// Whether `code` has the shape of a recovery code.
pub fn check_recovery_code(code: &str) -> (valid: bool)
    ensures
        valid == is_recovery_code(code@),
{
    if code.unicode_len() != 23 {
        return false;
    }
    let mut i: usize = 0;
    while i < 23
        invariant
            i <= 23,
            code@.len() == 23,
            forall|j: int| 0 <= j < i ==> (if j == 0 {
                code@[j] == 'Q'
            } else if j == 1 {
                code@[j] == 'R'
            } else if j == 2 {
                code@[j] == 'E'
            } else if j == 3 || j == 8 || j == 13 || j == 18 {
                code@[j] == '-'
            } else {
                is_hex_digit(#[trigger] code@[j])
            }),
        decreases 23 - i,
    {
        let c = code.get_char(i);
        let good = if i == 0 {
            c == 'Q'
        } else if i == 1 {
            c == 'R'
        } else if i == 2 {
            c == 'E'
        } else if i == 3 || i == 8 || i == 13 || i == 18 {
            c == '-'
        } else {
            ('0' <= c && c <= '9') || ('A' <= c && c <= 'F')
        };
        if !good {
            return false;
        }
        i += 1;
    }
    true
}

} // verus!
