//! Rendering of bytes as two-digit uppercase hex, for the human-readable
//! diagnostics emitted when a frame fails validation.

use vstd::prelude::*;
use vstd::slice::slice_index_get;

verus! {

/// The uppercase hex digit for a value below 16.
pub open spec fn spec_hex_digit(n: u8) -> char
    recommends
        n < 16,
{
    if n == 0 {
        '0'
    } else if n == 1 {
        '1'
    } else if n == 2 {
        '2'
    } else if n == 3 {
        '3'
    } else if n == 4 {
        '4'
    } else if n == 5 {
        '5'
    } else if n == 6 {
        '6'
    } else if n == 7 {
        '7'
    } else if n == 8 {
        '8'
    } else if n == 9 {
        '9'
    } else if n == 10 {
        'A'
    } else if n == 11 {
        'B'
    } else if n == 12 {
        'C'
    } else if n == 13 {
        'D'
    } else if n == 14 {
        'E'
    } else {
        'F'
    }
}

/// The two uppercase hex digits of a byte, high nibble first.
pub open spec fn spec_hex_byte(b: u8) -> Seq<char> {
    seq![spec_hex_digit(b >> 4), spec_hex_digit(b & 0x0f)]
}

/// A byte buffer rendered as space-separated two-digit uppercase hex, with a
/// space after every byte.
pub open spec fn spec_hex_dump(s: Seq<u8>) -> Seq<char>
    decreases s.len(),
{
    if s.len() == 0 {
        Seq::empty()
    } else {
        spec_hex_dump(s.drop_last()) + spec_hex_byte(s.last()) + seq![' ']
    }
}

/// The one-character string holding the uppercase hex digit of a value below
/// 16.
fn hex_digit_str(n: u8) -> (r: &'static str)
    requires
        n < 16,
    ensures
        r@ == seq![spec_hex_digit(n)],
{
    match n {
        0 => {
            proof {
                reveal_strlit("0");
                assert("0"@ =~= seq![spec_hex_digit(0)]);
            }
            "0"
        },
        1 => {
            proof {
                reveal_strlit("1");
                assert("1"@ =~= seq![spec_hex_digit(1)]);
            }
            "1"
        },
        2 => {
            proof {
                reveal_strlit("2");
                assert("2"@ =~= seq![spec_hex_digit(2)]);
            }
            "2"
        },
        3 => {
            proof {
                reveal_strlit("3");
                assert("3"@ =~= seq![spec_hex_digit(3)]);
            }
            "3"
        },
        4 => {
            proof {
                reveal_strlit("4");
                assert("4"@ =~= seq![spec_hex_digit(4)]);
            }
            "4"
        },
        5 => {
            proof {
                reveal_strlit("5");
                assert("5"@ =~= seq![spec_hex_digit(5)]);
            }
            "5"
        },
        6 => {
            proof {
                reveal_strlit("6");
                assert("6"@ =~= seq![spec_hex_digit(6)]);
            }
            "6"
        },
        7 => {
            proof {
                reveal_strlit("7");
                assert("7"@ =~= seq![spec_hex_digit(7)]);
            }
            "7"
        },
        8 => {
            proof {
                reveal_strlit("8");
                assert("8"@ =~= seq![spec_hex_digit(8)]);
            }
            "8"
        },
        9 => {
            proof {
                reveal_strlit("9");
                assert("9"@ =~= seq![spec_hex_digit(9)]);
            }
            "9"
        },
        10 => {
            proof {
                reveal_strlit("A");
                assert("A"@ =~= seq![spec_hex_digit(10)]);
            }
            "A"
        },
        11 => {
            proof {
                reveal_strlit("B");
                assert("B"@ =~= seq![spec_hex_digit(11)]);
            }
            "B"
        },
        12 => {
            proof {
                reveal_strlit("C");
                assert("C"@ =~= seq![spec_hex_digit(12)]);
            }
            "C"
        },
        13 => {
            proof {
                reveal_strlit("D");
                assert("D"@ =~= seq![spec_hex_digit(13)]);
            }
            "D"
        },
        14 => {
            proof {
                reveal_strlit("E");
                assert("E"@ =~= seq![spec_hex_digit(14)]);
            }
            "E"
        },
        _ => {
            proof {
                reveal_strlit("F");
                assert("F"@ =~= seq![spec_hex_digit(15)]);
            }
            "F"
        },
    }
}

/// A byte as its two uppercase hex digits.
pub fn hex_byte_string(b: u8) -> (r: String)
    ensures
        r@ == spec_hex_byte(b),
{
    let hi = b >> 4;
    let lo = b & 0x0f;
    proof {
        assert(b >> 4 < 16 && b & 0x0f < 16) by (bit_vector);
    }
    let mut r = String::from_str(hex_digit_str(hi));
    r.append(hex_digit_str(lo));
    proof {
        assert(r@ =~= spec_hex_byte(b));
    }
    r
}

/// A byte buffer as space-separated two-digit uppercase hex.
pub fn hex_dump_string(buf: &[u8]) -> (r: String)
    ensures
        r@ == spec_hex_dump(buf@),
{
    let mut r = String::new();
    let len = buf.len();
    let mut i: usize = 0;
    while i < len
        invariant
            i <= len,
            len == buf@.len(),
            r@ == spec_hex_dump(buf@.subrange(0, i as int)),
        decreases len - i,
    {
        let piece = hex_byte_string(*slice_index_get(buf, i));
        r.append(piece.as_str());
        r.append(" ");
        proof {
            reveal_strlit(" ");
            let longer = buf@.subrange(0, i as int + 1);
            assert(longer.drop_last() =~= buf@.subrange(0, i as int));
            assert(longer.last() == buf@[i as int]);
            assert(" "@ =~= seq![' ']);
            assert(r@ =~= spec_hex_dump(longer));
        }
        i = i + 1;
    }
    proof {
        assert(buf@.subrange(0, len as int) =~= buf@);
    }
    r
}

}  // verus!
