//! The escaping codec for the contents of a quoted string.

use vstd::prelude::*;
use vstd::slice::*;
use vstd::string::*;

verus! {

// Characters for use in literal escape sequences.
pub const BB: u8 = 0x62;  // \x08
pub const TT: u8 = 0x74;  // \x09
pub const NN: u8 = 0x6E;  // \x0A
pub const FF: u8 = 0x66;  // \x0C
pub const RR: u8 = 0x72;  // \x0D
pub const QU: u8 = 0x22;  // \x22
pub const BS: u8 = 0x5C;  // \x5C
pub const UU: u8 = 0x75;  // \x00...\x1F except the ones above
const __: u8 = 0;

// Lookup table of escape sequences. A value of b'x' at index i means that byte
// i is escaped as "\x". A value of 0 means that byte i is not escaped.
const ESCAPE: [u8; 256] = [
    //   1   2   3   4   5   6   7   8   9   A   B   C   D   E   F
    UU, UU, UU, UU, UU, UU, UU, UU, BB, TT, NN, UU, FF, RR, UU, UU, // 0
    UU, UU, UU, UU, UU, UU, UU, UU, UU, UU, UU, UU, UU, UU, UU, UU, // 1
    __, __, QU, __, __, __, __, __, __, __, __, __, __, __, __, __, // 2
    __, __, __, __, __, __, __, __, __, __, __, __, __, __, __, __, // 3
    __, __, __, __, __, __, __, __, __, __, __, __, __, __, __, __, // 4
    __, __, __, __, __, __, __, __, __, __, __, __, BS, __, __, __, // 5
    __, __, __, __, __, __, __, __, __, __, __, __, __, __, __, __, // 6
    __, __, __, __, __, __, __, __, __, __, __, __, __, __, __, __, // 7
    __, __, __, __, __, __, __, __, __, __, __, __, __, __, __, __, // 8
    __, __, __, __, __, __, __, __, __, __, __, __, __, __, __, __, // 9
    __, __, __, __, __, __, __, __, __, __, __, __, __, __, __, __, // A
    __, __, __, __, __, __, __, __, __, __, __, __, __, __, __, __, // B
    __, __, __, __, __, __, __, __, __, __, __, __, __, __, __, __, // C
    __, __, __, __, __, __, __, __, __, __, __, __, __, __, __, __, // D
    __, __, __, __, __, __, __, __, __, __, __, __, __, __, __, __, // E
    __, __, __, __, __, __, __, __, __, __, __, __, __, __, __, __, // F
];

const HEX_DIGITS: [u8; 16] = [
    0x30, 0x31, 0x32, 0x33, 0x34, 0x35, 0x36, 0x37, 0x38, 0x39, 0x61, 0x62, 0x63, 0x64, 0x65, 0x66,
];

/// The code that the lookup table holds for `byte`: the letter of its
/// escape sequence, or `0` when the byte is written as it is.
pub open spec fn escape_code(byte: u8) -> u8 {
    if byte == 0x08 {
        BB
    } else if byte == 0x09 {
        TT
    } else if byte == 0x0A {
        NN
    } else if byte == 0x0C {
        FF
    } else if byte == 0x0D {
        RR
    } else if byte == 0x22 {
        QU
    } else if byte == 0x5C {
        BS
    } else if byte < 0x20 {
        UU
    } else {
        0
    }
}

/// Whether `code` is one of the letters that the lookup table holds.
pub open spec fn is_escape_code(code: u8) -> bool {
    code == BB || code == TT || code == NN || code == FF || code == RR || code == QU || code == BS
        || code == UU
}

/// The lowercase hexadecimal digit of `nibble`, as an ASCII byte.
pub open spec fn hex_digit(nibble: u8) -> u8 {
    if nibble < 10 {
        (0x30 + nibble) as u8
    } else {
        (0x61 + nibble - 10) as u8
    }
}

/// What one byte of a string's contents is written as: its escape sequence
/// where it has one, the byte itself otherwise.
///
/// A control character without a letter of its own becomes `\u{XX}`, with
/// the two lowercase hexadecimal digits of the byte between the braces.
pub open spec fn escaped_byte(byte: u8) -> Seq<u8> {
    if byte == 0x08 {
        seq![0x5Cu8, 0x62u8]
    } else if byte == 0x09 {
        seq![0x5Cu8, 0x74u8]
    } else if byte == 0x0A {
        seq![0x5Cu8, 0x6Eu8]
    } else if byte == 0x0C {
        seq![0x5Cu8, 0x66u8]
    } else if byte == 0x0D {
        seq![0x5Cu8, 0x72u8]
    } else if byte == 0x22 {
        seq![0x5Cu8, 0x22u8]
    } else if byte == 0x5C {
        seq![0x5Cu8, 0x5Cu8]
    } else if byte < 0x20 {
        seq![0x5Cu8, 0x75u8, 0x7Bu8, hex_digit(byte / 16), hex_digit(byte % 16), 0x7Du8]
    } else {
        seq![byte]
    }
}

/// The escaped form of `bytes`: each byte written as [`escaped_byte`] gives
/// it, in order.
pub open spec fn escaped(bytes: Seq<u8>) -> Seq<u8>
    decreases bytes.len(),
{
    if bytes.len() == 0 {
        Seq::empty()
    } else {
        escaped(bytes.drop_last()) + escaped_byte(bytes.last())
    }
}

/// Represents a character escape code in a type-safe manner.
#[derive(Debug, Clone, Copy, PartialEq, Eq, Structural)]
pub enum CharEscape {
    /// An escaped quote `"`
    Quote,
    /// An escaped reverse solidus `\`
    ReverseSolidus,
    /// An escaped backspace character (escaped as `\b`)
    Backspace,
    /// An escaped form feed character (escaped as `\f`)
    FormFeed,
    /// An escaped line feed character (escaped as `\n`)
    LineFeed,
    /// An escaped carriage return character (escaped as `\r`)
    CarriageReturn,
    /// An escaped tab character (escaped as `\t`)
    Tab,
    /// An escaped ASCII plane control character (escaped as `\u{XX}` where
    /// `XX` are two hex characters)
    AsciiControl(u8),
}

impl CharEscape {
    /// The escape that the letter `escape` of the lookup table stands for,
    /// for the byte `byte`.
    pub open spec fn for_code(escape: u8, byte: u8) -> CharEscape {
        if escape == BB {
            CharEscape::Backspace
        } else if escape == TT {
            CharEscape::Tab
        } else if escape == NN {
            CharEscape::LineFeed
        } else if escape == FF {
            CharEscape::FormFeed
        } else if escape == RR {
            CharEscape::CarriageReturn
        } else if escape == QU {
            CharEscape::Quote
        } else if escape == BS {
            CharEscape::ReverseSolidus
        } else {
            CharEscape::AsciiControl(byte)
        }
    }

    /// The bytes of the escape sequence.
    pub open spec fn text(self) -> Seq<u8> {
        match self {
            CharEscape::Quote => seq![0x5Cu8, 0x22u8],
            CharEscape::ReverseSolidus => seq![0x5Cu8, 0x5Cu8],
            CharEscape::Backspace => seq![0x5Cu8, 0x62u8],
            CharEscape::FormFeed => seq![0x5Cu8, 0x66u8],
            CharEscape::LineFeed => seq![0x5Cu8, 0x6Eu8],
            CharEscape::CarriageReturn => seq![0x5Cu8, 0x72u8],
            CharEscape::Tab => seq![0x5Cu8, 0x74u8],
            CharEscape::AsciiControl(byte) => seq![
                0x5Cu8,
                0x75u8,
                0x7Bu8,
                hex_digit(byte / 16),
                hex_digit(byte % 16),
                0x7Du8,
            ],
        }
    }

    /// Turns an entry of the lookup table into the escape it stands for.
    pub fn from_escape_table(escape: u8, byte: u8) -> (res: CharEscape)
        requires
            is_escape_code(escape),
        ensures
            res == CharEscape::for_code(escape, byte),
    {
        if escape == BB {
            CharEscape::Backspace
        } else if escape == TT {
            CharEscape::Tab
        } else if escape == NN {
            CharEscape::LineFeed
        } else if escape == FF {
            CharEscape::FormFeed
        } else if escape == RR {
            CharEscape::CarriageReturn
        } else if escape == QU {
            CharEscape::Quote
        } else if escape == BS {
            CharEscape::ReverseSolidus
        } else {
            CharEscape::AsciiControl(byte)
        }
    }

    /// Appends the escape sequence to `writer`.
    pub fn write_to(self, writer: &mut Vec<u8>)
        ensures
            final(writer)@ == old(writer)@ + self.text(),
    {
        let letter: u8 = match self {
            CharEscape::Quote => 0x22,
            CharEscape::ReverseSolidus => 0x5C,
            CharEscape::Backspace => 0x62,
            CharEscape::FormFeed => 0x66,
            CharEscape::LineFeed => 0x6E,
            CharEscape::CarriageReturn => 0x72,
            CharEscape::Tab => 0x74,
            CharEscape::AsciiControl(byte) => {
                let high: u8 = byte >> 4;
                let low: u8 = byte & 0xF;
                assert(high == byte / 16 && low == byte % 16) by (bit_vector)
                    requires
                        high == byte >> 4,
                        low == byte & 0xF,
                ;
                writer.push(0x5C);
                writer.push(0x75);
                writer.push(0x7B);
                writer.push(HEX_DIGITS[high as usize]);
                writer.push(HEX_DIGITS[low as usize]);
                writer.push(0x7D);
                return ;
            },
        };
        writer.push(0x5C);
        writer.push(letter);
    }
}

/// Escaping goes byte by byte: the escaped form of two pieces joined is the
/// two escaped forms joined.
pub proof fn lemma_escaped_concat(a: Seq<u8>, b: Seq<u8>)
    ensures
        escaped(a + b) == escaped(a) + escaped(b),
    decreases b.len(),
{
    if b.len() == 0 {
        assert(a + b =~= a);
    } else {
        lemma_escaped_concat(a, b.drop_last());
        assert((a + b).drop_last() =~= a + b.drop_last());
        assert((a + b).last() == b.last());
    }
}

/// A run of bytes of which none has an escape sequence is its own escaped
/// form.
pub proof fn lemma_escaped_plain(bytes: Seq<u8>)
    requires
        forall|k: int| 0 <= k < bytes.len() ==> escape_code(#[trigger] bytes[k]) == 0,
    ensures
        escaped(bytes) == bytes,
    decreases bytes.len(),
{
    if bytes.len() > 0 {
        lemma_escaped_plain(bytes.drop_last());
        assert(bytes =~= bytes.drop_last() + seq![bytes.last()]);
    }
}

/// Every byte with an entry in the lookup table is written as the escape
/// that the entry stands for.
pub proof fn lemma_table_escape(byte: u8)
    requires
        escape_code(byte) != 0,
    ensures
        is_escape_code(escape_code(byte)),
        CharEscape::for_code(escape_code(byte), byte).text() == escaped_byte(byte),
{
}

/// Writes the contents of a string with its special characters replaced by
/// escape sequences.
///
/// The bytes of `value` are scanned once; a run of bytes that need no
/// escaping is copied in one piece.
pub fn format_escaped_str_contents(writer: &mut Vec<u8>, value: &str)
    ensures
        final(writer)@ == old(writer)@ + escaped(value.spec_bytes()),
{
    let bytes = value.as_bytes();
    let ghost before = writer@;

    let mut start: usize = 0;
    let mut i: usize = 0;
    proof {
        assert(bytes@.subrange(0, 0) =~= Seq::<u8>::empty());
    }
    while i < bytes.len()
        invariant
            start <= i <= bytes.len(),
            writer@ == before + escaped(bytes@.subrange(0, start as int)),
            forall|k: int| start <= k < i ==> escape_code(#[trigger] bytes@[k]) == 0,
        decreases bytes.len() - i,
    {
        let byte = bytes[i];
        let escape = ESCAPE[byte as usize];
        if escape != 0 {
            let ghost run = bytes@.subrange(start as int, i as int);
            if start < i {
                writer.extend_from_slice(slice_subrange(bytes, start, i));
            }
            let char_escape = CharEscape::from_escape_table(escape, byte);
            char_escape.write_to(writer);
            proof {
                lemma_table_escape(byte);
                lemma_escaped_plain(run);
                lemma_escaped_concat(bytes@.subrange(0, start as int), run);
                assert(bytes@.subrange(0, start as int) + run =~= bytes@.subrange(0, i as int));
                assert(bytes@.subrange(0, i + 1).drop_last() =~= bytes@.subrange(0, i as int));
                assert(writer@ =~= before + escaped(bytes@.subrange(0, i + 1)));
            }
            start = i + 1;
        }
        i += 1;
    }

    if start == bytes.len() {
        assert(bytes@.subrange(0, start as int) =~= bytes@);
        return ;
    }
    writer.extend_from_slice(slice_subrange(bytes, start, bytes.len()));
    proof {
        let run = bytes@.subrange(start as int, bytes@.len() as int);
        lemma_escaped_plain(run);
        lemma_escaped_concat(bytes@.subrange(0, start as int), run);
        assert(bytes@.subrange(0, start as int) + run =~= bytes@);
    }
}

} // verus!
