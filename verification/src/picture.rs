//! The finished picture: where each pixel lies, and the bytes of the file.
//!
//! Pixels are numbered row by row from the top left. The file begins with
//! a short header in text, which gives the width and the height in decimal,
//! and goes on with three bytes for each pixel in the order of their numbers:
//! red, green and blue.

use vstd::prelude::*;

verus! {

/// The width of the picture in pixels.
pub const WIDTH: usize = 1024;

/// The height of the picture in pixels.
pub const HEIGHT: usize = 768;

/// The column and the row of the pixel with the number `pixel`, in a
/// picture that is `width` pixels wide.
pub fn pixel_position(pixel: usize, width: usize) -> (position: (usize, usize))
    requires
        width > 0,
    ensures
        position.0 == pixel % width,
        position.1 == pixel / width,
{
    (pixel % width, pixel / width)
}

/// The decimal digits of `number`, as characters.
pub open spec fn decimal(number: nat) -> Seq<u8>
    decreases number,
{
    if number < 10 {
        seq![(48 + number) as u8]
    } else {
        decimal(number / 10).push((48 + number % 10) as u8)
    }
}

/// The header of the file for a picture of the given size: the mark of a
/// binary pixmap (the letter `P` and the digit `6`), a line feed, the width,
/// a blank, the height, a line feed, the greatest value of a sample, which
/// is 255, and a line feed.
pub open spec fn header(width: nat, height: nat) -> Seq<u8> {
    seq![80u8, 54u8, 10u8] + decimal(width) + seq![32u8] + decimal(height) + seq![
        10u8,
        50u8,
        53u8,
        53u8,
        10u8,
    ]
}

/// Appends the decimal digits of `number` to `bytes`.
fn push_decimal(bytes: &mut Vec<u8>, number: usize)
    ensures
        final(bytes)@ == old(bytes)@ + decimal(number as nat),
    decreases number,
{
    if number >= 10 {
        push_decimal(bytes, number / 10);
    }
    let digit: u8 = (number % 10) as u8;
    bytes.push(48 + digit);
    assert(final(bytes)@ =~= old(bytes)@ + decimal(number as nat));
}

/// The header of the file for a picture of the given size.
pub fn ppm_header(width: usize, height: usize) -> (bytes: Vec<u8>)
    ensures
        bytes@ == header(width as nat, height as nat),
{
    let mut bytes: Vec<u8> = Vec::new();
    bytes.push(80);
    bytes.push(54);
    bytes.push(10);
    push_decimal(&mut bytes, width);
    bytes.push(32);
    push_decimal(&mut bytes, height);
    bytes.push(10);
    bytes.push(50);
    bytes.push(53);
    bytes.push(53);
    bytes.push(10);
    assert(bytes@ =~= header(width as nat, height as nat));
    bytes
}

/// The bytes of the file for a picture of the given size: the header, then
/// the samples. `None` where `samples` does not hold three bytes for each
/// pixel.
pub fn encode_ppm(width: usize, height: usize, samples: &[u8]) -> (file: Option<Vec<u8>>)
    ensures
        file.is_some() <==> samples@.len() == 3 * (width * height),
        file.is_some() ==> file.unwrap()@ == header(width as nat, height as nat) + samples@,
{
    let count: usize = samples.len();
    let pixels: usize = match width.checked_mul(height) {
        Some(pixels) => pixels,
        None => {
            return None;
        },
    };
    let length: usize = match pixels.checked_mul(3) {
        Some(length) => length,
        None => {
            return None;
        },
    };
    if count != length {
        return None;
    }
    let mut bytes = ppm_header(width, height);
    let ghost head = bytes@;
    let mut index: usize = 0;
    while index < count
        invariant
            count == samples@.len(),
            index <= count,
            bytes@ == head + samples@.take(index as int),
        decreases count - index,
    {
        bytes.push(samples[index]);
        index += 1;
        assert(bytes@ =~= head + samples@.take(index as int));
    }
    assert(samples@.take(index as int) =~= samples@);
    Some(bytes)
}

} // verus!
