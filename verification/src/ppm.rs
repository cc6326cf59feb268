//! Plain-text PPM: the header, and one line of three numbers for each pixel.
use vstd::prelude::*;

verus! {

/// The character `0`; the other digits follow it.
pub const DIGIT_ZERO: u8 = 48;

/// The space between two numbers.
pub const SPACE: u8 = 32;

/// The end of a line.
pub const NEWLINE: u8 = 10;

/// The letter `P`.
pub const LETTER_P: u8 = 80;

/// The number `n` in decimal, without leading zeros.
pub open spec fn decimal(n: nat) -> Seq<u8>
    decreases n,
{
    if n < 10 {
        seq![(DIGIT_ZERO + n) as u8]
    } else {
        decimal(n / 10).push((DIGIT_ZERO + n % 10) as u8)
    }
}

/// The header of an image of the given size with channels up to 255: the
/// mark of a plain-text pixmap, the letter `P` and the digit 3, on a line of
/// its own; then width and height on one line; then `255`.
pub open spec fn header(width: nat, height: nat) -> Seq<u8> {
    seq![LETTER_P, (DIGIT_ZERO + 3) as u8, NEWLINE] + decimal(width) + seq![SPACE] + decimal(height)
        + seq![NEWLINE, (DIGIT_ZERO + 2) as u8, (DIGIT_ZERO + 5) as u8, (DIGIT_ZERO + 5) as u8, NEWLINE]
}

/// The line of one pixel: red, green and blue, a space between them.
pub open spec fn pixel_line(r: u8, g: u8, b: u8) -> Seq<u8> {
    decimal(r as nat) + seq![SPACE] + decimal(g as nat) + seq![SPACE] + decimal(b as nat) + seq![
        NEWLINE,
    ]
}

/// A byte that occurs in an image: a digit, a space, a newline or the
/// letter `P`. All of them are ASCII.
pub open spec fn is_image_byte(b: u8) -> bool {
    DIGIT_ZERO <= b <= DIGIT_ZERO + 9 || b == SPACE || b == NEWLINE || b == LETTER_P
}

/// Every byte of `text` may occur in an image.
pub open spec fn is_image_text(text: Seq<u8>) -> bool {
    forall|i: int| 0 <= i < text.len() ==> is_image_byte(#[trigger] text[i])
}

/// Appends `n` in decimal.
pub fn push_decimal(output: &mut Vec<u8>, n: u64)
    ensures
        final(output)@ == old(output)@ + decimal(n as nat),
    decreases n,
{
    if n >= 10 {
        push_decimal(output, n / 10);
    }
    output.push(DIGIT_ZERO + (n % 10) as u8);
    assert(output@ =~= old(output)@ + decimal(n as nat));
}

/// Appends the header of an image of the given size.
pub fn push_header(output: &mut Vec<u8>, width: usize, height: usize)
    ensures
        final(output)@ == old(output)@ + header(width as nat, height as nat),
{
    output.push(LETTER_P);
    output.push(DIGIT_ZERO + 3);
    output.push(NEWLINE);
    push_decimal(output, width as u64);
    output.push(SPACE);
    push_decimal(output, height as u64);
    output.push(NEWLINE);
    output.push(DIGIT_ZERO + 2);
    output.push(DIGIT_ZERO + 5);
    output.push(DIGIT_ZERO + 5);
    output.push(NEWLINE);
    assert(output@ =~= old(output)@ + header(width as nat, height as nat));
}

/// Appends the line of one pixel.
pub fn push_pixel(output: &mut Vec<u8>, r: u8, g: u8, b: u8)
    ensures
        final(output)@ == old(output)@ + pixel_line(r, g, b),
{
    push_decimal(output, r as u64);
    output.push(SPACE);
    push_decimal(output, g as u64);
    output.push(SPACE);
    push_decimal(output, b as u64);
    output.push(NEWLINE);
    assert(output@ =~= old(output)@ + pixel_line(r, g, b));
}

/// A number in decimal has at least one digit, and digits only.
pub proof fn lemma_decimal_is_digits(n: nat)
    ensures
        decimal(n).len() >= 1,
        forall|i: int|
            0 <= i < decimal(n).len() ==> DIGIT_ZERO <= #[trigger] decimal(n)[i] <= DIGIT_ZERO + 9,
    decreases n,
{
    if n >= 10 {
        lemma_decimal_is_digits(n / 10);
    }
}

/// The header and the line of a pixel are text: they hold no byte but
/// digits, spaces, newlines and the letter `P`.
pub proof fn lemma_header_and_line_are_text(width: nat, height: nat, r: u8, g: u8, b: u8)
    ensures
        is_image_text(header(width, height)),
        is_image_text(pixel_line(r, g, b)),
{
    lemma_decimal_is_digits(width);
    lemma_decimal_is_digits(height);
    lemma_decimal_is_digits(r as nat);
    lemma_decimal_is_digits(g as nat);
    lemma_decimal_is_digits(b as nat);
}

} // verus!
