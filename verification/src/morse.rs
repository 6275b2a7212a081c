//! The Morse alphabet: one symbol for every Unicode scalar value.
//!
//! Letters, digits and punctuation map to a pattern of short marks (`.`) and long marks
//! (`-`). Blanks and control characters stand for themselves. Everything else maps to the
//! error symbol of eight short marks.

use vstd::prelude::*;

verus! {

/// Pattern of the `index`-th letter of the Latin alphabet, counting `A` as 0.
pub open spec fn letter_symbol(index: int) -> Seq<char> {
    if index == 0 {
        ".-"@
    } else if index == 1 {
        "-..."@
    } else if index == 2 {
        "-.-."@
    } else if index == 3 {
        "-.."@
    } else if index == 4 {
        "."@
    } else if index == 5 {
        "..-."@
    } else if index == 6 {
        "--."@
    } else if index == 7 {
        "...."@
    } else if index == 8 {
        ".."@
    } else if index == 9 {
        ".---"@
    } else if index == 10 {
        "-.-"@
    } else if index == 11 {
        ".-.."@
    } else if index == 12 {
        "--"@
    } else if index == 13 {
        "-."@
    } else if index == 14 {
        "---"@
    } else if index == 15 {
        ".--."@
    } else if index == 16 {
        "--.-"@
    } else if index == 17 {
        ".-."@
    } else if index == 18 {
        "..."@
    } else if index == 19 {
        "-"@
    } else if index == 20 {
        "..-"@
    } else if index == 21 {
        "...-"@
    } else if index == 22 {
        ".--"@
    } else if index == 23 {
        "-..-"@
    } else if index == 24 {
        "-.--"@
    } else {
        "--.."@
    }
}

/// Pattern of the decimal digit `digit`.
pub open spec fn digit_symbol(digit: int) -> Seq<char> {
    if digit == 0 {
        "-----"@
    } else if digit == 1 {
        ".----"@
    } else if digit == 2 {
        "..---"@
    } else if digit == 3 {
        "...--"@
    } else if digit == 4 {
        "....-"@
    } else if digit == 5 {
        "....."@
    } else if digit == 6 {
        "-...."@
    } else if digit == 7 {
        "--..."@
    } else if digit == 8 {
        "---.."@
    } else {
        "----."@
    }
}

/// Pattern of an accented Latin letter of the alphabet, in either case; `None` for any
/// other character.
pub open spec fn accented_symbol(c: char) -> Option<Seq<char>> {
    if c == '\u{c0}' || c == '\u{e0}' || c == '\u{c5}' || c == '\u{e5}' {
        // A with grave, A with ring
        Some(".--.-"@)
    } else if c == '\u{c4}' || c == '\u{e4}' {
        // A with diaeresis
        Some(".-.-"@)
    } else if c == '\u{c8}' || c == '\u{e8}' {
        // E with grave
        Some(".-..-"@)
    } else if c == '\u{c9}' || c == '\u{e9}' {
        // E with acute
        Some("..-.."@)
    } else if c == '\u{d6}' || c == '\u{f6}' {
        // O with diaeresis
        Some("---."@)
    } else if c == '\u{dc}' || c == '\u{fc}' {
        // U with diaeresis
        Some("..--"@)
    } else if c == '\u{df}' {
        // sharp S
        Some("...--.."@)
    } else if c == '\u{d1}' || c == '\u{f1}' {
        // N with tilde
        Some("--.--"@)
    } else {
        None
    }
}

/// Pattern of a punctuation mark of the alphabet; `None` for any other character.
pub open spec fn punctuation_symbol(c: char) -> Option<Seq<char>> {
    if c == '.' {
        Some(".-.-.-"@)
    } else if c == ',' {
        Some("--..--"@)
    } else if c == ':' {
        Some("---..."@)
    } else if c == ';' {
        Some("-.-.-."@)
    } else if c == '?' {
        Some("..--.."@)
    } else if c == '!' {
        Some("-.-.--"@)
    } else if c == '-' {
        Some("-....-"@)
    } else if c == '_' {
        Some("..--.-"@)
    } else if c == '(' {
        Some("-.--."@)
    } else if c == ')' {
        Some("-.--.-"@)
    } else if c == '\'' {
        Some(".----."@)
    } else if c == '=' {
        Some("-...-"@)
    } else if c == '+' {
        Some(".-.-."@)
    } else if c == '/' {
        Some("-..-."@)
    } else if c == '@' || c == '"' {
        Some(".--.-."@)
    } else {
        None
    }
}

/// Whether `c` is an upper-case Latin letter.
pub open spec fn is_upper(c: char) -> bool {
    'A' <= c <= 'Z'
}

/// Whether `c` is a lower-case Latin letter.
pub open spec fn is_lower(c: char) -> bool {
    'a' <= c <= 'z'
}

/// Whether `c` is a decimal digit.
pub open spec fn is_digit(c: char) -> bool {
    '0' <= c <= '9'
}

/// Whether `c` is a blank or control character that stands for itself: space, line feed,
/// carriage return, tabulator or null.
pub open spec fn is_verbatim(c: char) -> bool {
    c == ' ' || c == '\n' || c == '\r' || c == '\t' || c == '\0'
}

/// Whether the alphabet has an entry for `c`.
pub open spec fn is_supported(c: char) -> bool {
    ||| is_upper(c)
    ||| is_lower(c)
    ||| is_digit(c)
    ||| accented_symbol(c) is Some
    ||| punctuation_symbol(c) is Some
    ||| is_verbatim(c)
}

/// The symbol of every character without an entry: eight short marks.
pub open spec fn error_symbol() -> Seq<char> {
    "........"@
}

/// The symbol that stands for `c`.
pub open spec fn morse_symbol(c: char) -> Seq<char> {
    if is_upper(c) {
        letter_symbol(c as int - 'A' as int)
    } else if is_lower(c) {
        letter_symbol(c as int - 'a' as int)
    } else if is_digit(c) {
        digit_symbol(c as int - '0' as int)
    } else if accented_symbol(c) is Some {
        accented_symbol(c)->0
    } else if punctuation_symbol(c) is Some {
        punctuation_symbol(c)->0
    } else if is_verbatim(c) {
        seq![c]
    } else {
        error_symbol()
    }
}

/// Whether `symbol` is a pattern: between one and eight marks, each short or long.
pub open spec fn is_pattern(symbol: Seq<char>) -> bool {
    &&& 1 <= symbol.len() <= 8
    &&& forall|i: int| 0 <= i < symbol.len() ==> symbol[i] == '.' || symbol[i] == '-'
}

/// The bytes that carry the symbol of `c` through a channel.
pub open spec fn symbol_bytes(c: char) -> Seq<u8> {
    vstd::utf8::encode_utf8(morse_symbol(c))
}

/// The Morse code of a text: the symbols of its characters one after the other, with
/// nothing put between them.
pub open spec fn morse_text(text: Seq<char>) -> Seq<u8>
    decreases text.len(),
{
    if text.len() == 0 {
        Seq::empty()
    } else {
        symbol_bytes(text[0]) + morse_text(text.drop_first())
    }
}

/// Converts a character into its Morse symbol.
///
/// The function is total and its result depends on the character alone: every character
/// has exactly one symbol, whenever it is asked for, and a character without an entry in
/// the alphabet has the error symbol.
pub fn morse_code_from(c: char) -> (symbol: &'static str)
    ensures
        symbol@ == morse_symbol(c),
        !is_supported(c) ==> symbol@ == error_symbol(),
{
    match c {
        // Latin letters
        'A' | 'a' => ".-",
        'B' | 'b' => "-...",
        'C' | 'c' => "-.-.",
        'D' | 'd' => "-..",
        'E' | 'e' => ".",
        'F' | 'f' => "..-.",
        'G' | 'g' => "--.",
        'H' | 'h' => "....",
        'I' | 'i' => "..",
        'J' | 'j' => ".---",
        'K' | 'k' => "-.-",
        'L' | 'l' => ".-..",
        'M' | 'm' => "--",
        'N' | 'n' => "-.",
        'O' | 'o' => "---",
        'P' | 'p' => ".--.",
        'Q' | 'q' => "--.-",
        'R' | 'r' => ".-.",
        'S' | 's' => "...",
        'T' | 't' => "-",
        'U' | 'u' => "..-",
        'V' | 'v' => "...-",
        'W' | 'w' => ".--",
        'X' | 'x' => "-..-",
        'Y' | 'y' => "-.--",
        'Z' | 'z' => "--..",
        // Digits
        '0' => "-----",
        '1' => ".----",
        '2' => "..---",
        '3' => "...--",
        '4' => "....-",
        '5' => ".....",
        '6' => "-....",
        '7' => "--...",
        '8' => "---..",
        '9' => "----.",
        // Accented letters
        '\u{c0}' | '\u{e0}' | '\u{c5}' | '\u{e5}' => ".--.-",
        '\u{c4}' | '\u{e4}' => ".-.-",
        '\u{c8}' | '\u{e8}' => ".-..-",
        '\u{c9}' | '\u{e9}' => "..-..",
        '\u{d6}' | '\u{f6}' => "---.",
        '\u{dc}' | '\u{fc}' => "..--",
        '\u{df}' => "...--..",
        '\u{d1}' | '\u{f1}' => "--.--",
        // Punctuation
        '.' => ".-.-.-",
        ',' => "--..--",
        ':' => "---...",
        ';' => "-.-.-.",
        '?' => "..--..",
        '!' => "-.-.--",
        '-' => "-....-",
        '_' => "..--.-",
        '(' => "-.--.",
        ')' => "-.--.-",
        '\'' => ".----.",
        '=' => "-...-",
        '+' => ".-.-.",
        '/' => "-..-.",
        '@' => ".--.-.",
        '"' => ".--.-.",
        // Blanks and control characters
        ' ' => {
            proof {
                reveal_strlit(" ");
            }
            " "
        },
        '\n' => {
            proof {
                reveal_strlit("\n");
            }
            "\n"
        },
        '\r' => {
            proof {
                reveal_strlit("\r");
            }
            "\r"
        },
        '\t' => {
            proof {
                reveal_strlit("\t");
            }
            "\t"
        },
        '\0' => {
            proof {
                reveal_strlit("\0");
            }
            "\0"
        },
        // Everything else
        _ => "........",
    }
}

/// Every letter has a pattern.
pub proof fn lemma_letter_symbol_is_pattern(index: int)
    ensures
        is_pattern(letter_symbol(index)),
{
    reveal_strlit(".-");
    reveal_strlit("-...");
    reveal_strlit("-.-.");
    reveal_strlit("-..");
    reveal_strlit(".");
    reveal_strlit("..-.");
    reveal_strlit("--.");
    reveal_strlit("....");
    reveal_strlit("..");
    reveal_strlit(".---");
    reveal_strlit("-.-");
    reveal_strlit(".-..");
    reveal_strlit("--");
    reveal_strlit("-.");
    reveal_strlit("---");
    reveal_strlit(".--.");
    reveal_strlit("--.-");
    reveal_strlit(".-.");
    reveal_strlit("...");
    reveal_strlit("-");
    reveal_strlit("..-");
    reveal_strlit("...-");
    reveal_strlit(".--");
    reveal_strlit("-..-");
    reveal_strlit("-.--");
    reveal_strlit("--..");
}

/// Every digit has a pattern of exactly five marks.
pub proof fn lemma_digit_symbol_is_pattern(digit: int)
    ensures
        is_pattern(digit_symbol(digit)),
        digit_symbol(digit).len() == 5,
{
    reveal_strlit("-----");
    reveal_strlit(".----");
    reveal_strlit("..---");
    reveal_strlit("...--");
    reveal_strlit("....-");
    reveal_strlit(".....");
    reveal_strlit("-....");
    reveal_strlit("--...");
    reveal_strlit("---..");
    reveal_strlit("----.");
}

/// Every accented letter of the alphabet has a pattern.
pub proof fn lemma_accented_symbol_is_pattern(c: char)
    requires
        accented_symbol(c) is Some,
    ensures
        is_pattern(accented_symbol(c)->0),
{
    reveal_strlit(".--.-");
    reveal_strlit(".-.-");
    reveal_strlit(".-..-");
    reveal_strlit("..-..");
    reveal_strlit("---.");
    reveal_strlit("..--");
    reveal_strlit("...--..");
    reveal_strlit("--.--");
}

/// Every punctuation mark of the alphabet has a pattern.
pub proof fn lemma_punctuation_symbol_is_pattern(c: char)
    requires
        punctuation_symbol(c) is Some,
    ensures
        is_pattern(punctuation_symbol(c)->0),
{
    reveal_strlit(".-.-.-");
    reveal_strlit("--..--");
    reveal_strlit("---...");
    reveal_strlit("-.-.-.");
    reveal_strlit("..--..");
    reveal_strlit("-.-.--");
    reveal_strlit("-....-");
    reveal_strlit("..--.-");
    reveal_strlit("-.--.");
    reveal_strlit("-.--.-");
    reveal_strlit(".----.");
    reveal_strlit("-...-");
    reveal_strlit(".-.-.");
    reveal_strlit("-..-.");
    reveal_strlit(".--.-.");
}

/// The error symbol is made of eight short marks.
pub proof fn lemma_error_symbol_is_eight_dots()
    ensures
        error_symbol() == Seq::new(8, |i: int| '.'),
        is_pattern(error_symbol()),
{
    reveal_strlit("........");
}

/// A character that the alphabet has no entry for maps to the error symbol.
pub proof fn lemma_unsupported_is_error(c: char)
    requires
        !is_supported(c),
    ensures
        morse_symbol(c) == error_symbol(),
{
}

/// The shape of every symbol: a blank or control character stands for itself, and every
/// other character has a pattern.
pub proof fn lemma_symbol_shape(c: char)
    ensures
        is_verbatim(c) ==> morse_symbol(c) == seq![c],
        !is_verbatim(c) ==> is_pattern(morse_symbol(c)),
        1 <= morse_symbol(c).len() <= 8,
{
    if is_upper(c) {
        lemma_letter_symbol_is_pattern(c as int - 'A' as int);
    } else if is_lower(c) {
        lemma_letter_symbol_is_pattern(c as int - 'a' as int);
    } else if is_digit(c) {
        lemma_digit_symbol_is_pattern(c as int - '0' as int);
    } else if accented_symbol(c) is Some {
        lemma_accented_symbol_is_pattern(c);
    } else if punctuation_symbol(c) is Some {
        lemma_punctuation_symbol_is_pattern(c);
    } else if is_verbatim(c) {
    } else {
        lemma_error_symbol_is_eight_dots();
    }
}

/// The alphabet does not tell the two cases of a Latin letter apart.
pub proof fn lemma_letters_ignore_case(upper: char, lower: char)
    requires
        is_upper(upper),
        lower as int == upper as int + 32,
    ensures
        is_lower(lower),
        morse_symbol(lower) == morse_symbol(upper),
{
}

/// The alphabet does not tell the two cases of an accented letter apart.
pub proof fn lemma_accented_ignore_case(upper: char, lower: char)
    requires
        accented_symbol(upper) is Some,
        0xc0 <= upper as int <= 0xde,
        lower as int == upper as int + 32,
    ensures
        morse_symbol(lower) == morse_symbol(upper),
{
}

/// Every symbol is plain ASCII text, so it travels as one byte per character of the
/// symbol: between one and eight bytes.
pub proof fn lemma_symbol_bytes(c: char)
    ensures
        vstd::utf8::is_ascii_chars(morse_symbol(c)),
        symbol_bytes(c).len() == morse_symbol(c).len(),
        1 <= symbol_bytes(c).len() <= 8,
        forall|i: int|
            0 <= i < symbol_bytes(c).len() ==> #[trigger] symbol_bytes(c)[i] == morse_symbol(
                c,
            )[i] as u8,
{
    lemma_symbol_shape(c);
    let symbol = morse_symbol(c);
    assert forall|i: int| 0 <= i < symbol.len() implies '\0' <= #[trigger] symbol[i]
        <= '\u{7f}' by {}
    vstd::utf8::is_ascii_chars_encode_utf8(symbol);
}

} // verus!
