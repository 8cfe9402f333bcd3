use vstd::prelude::*;

verus! {

/// Red channel of a packed cell: the least significant byte.
pub open spec fn red(word: u32) -> u8 {
    (word % 256) as u8
}

/// Green channel of a packed cell: the second byte.
pub open spec fn green(word: u32) -> u8 {
    ((word / 256) % 256) as u8
}

/// Blue channel of a packed cell: the third byte.
pub open spec fn blue(word: u32) -> u8 {
    ((word / 65536) % 256) as u8
}

/// Alpha channel of a packed cell: the most significant byte.
pub open spec fn alpha(word: u32) -> u8 {
    (word / 16777216) as u8
}

/// Channel `k` of a packed cell, in the order red, green, blue, alpha.
pub open spec fn channel(word: u32, k: int) -> u8 {
    if k == 0 {
        red(word)
    } else if k == 1 {
        green(word)
    } else if k == 2 {
        blue(word)
    } else {
        alpha(word)
    }
}

/// The little-endian word whose bytes are `r, g, b, a`.
pub open spec fn packed(r: u8, g: u8, b: u8, a: u8) -> u32 {
    (r + 256 * g + 65536 * b + 16777216 * a) as u32
}

/// Blue level of an escaping pixel: `128 + n`, saturated at 255.
pub open spec fn blue_level(n: u32) -> u8 {
    if n >= 127 {
        255
    } else {
        (128 + n) as u8
    }
}

/// Color of a pixel whose escape count is `n` under the cap `max_iterations`.
pub open spec fn color_of(n: u32, max_iterations: u32) -> u32 {
    if n < max_iterations {
        packed(0, 0, blue_level(n), 255)
    } else {
        packed(0, 0, 0, 255)
    }
}

/// Unpacking a packed word gives back its four bytes.
pub proof fn lemma_packed_channels(r: u8, g: u8, b: u8, a: u8)
    ensures
        red(packed(r, g, b, a)) == r,
        green(packed(r, g, b, a)) == g,
        blue(packed(r, g, b, a)) == b,
        alpha(packed(r, g, b, a)) == a,
{
    let w: int = r + 256 * g + 65536 * b + 16777216 * a;
    assert(0 <= w < 0x1_0000_0000);
    assert(w % 256 == r) by (nonlinear_arith)
        requires
            w == r + 256 * g + 65536 * b + 16777216 * a,
            0 <= r < 256,
            0 <= g < 256,
            0 <= b < 256,
            0 <= a < 256,
    ;
    assert(w / 256 == g + 256 * b + 65536 * a) by (nonlinear_arith)
        requires
            w == r + 256 * g + 65536 * b + 16777216 * a,
            0 <= r < 256,
            0 <= g < 256,
            0 <= b < 256,
            0 <= a < 256,
    ;
    assert((w / 256) % 256 == g) by (nonlinear_arith)
        requires
            w / 256 == g + 256 * b + 65536 * a,
            0 <= g < 256,
            0 <= b < 256,
            0 <= a < 256,
    ;
    assert(w / 65536 == b + 256 * a) by (nonlinear_arith)
        requires
            w == r + 256 * g + 65536 * b + 16777216 * a,
            0 <= r < 256,
            0 <= g < 256,
            0 <= b < 256,
            0 <= a < 256,
    ;
    assert((w / 65536) % 256 == b) by (nonlinear_arith)
        requires
            w / 65536 == b + 256 * a,
            0 <= b < 256,
            0 <= a < 256,
    ;
    assert(w / 16777216 == a) by (nonlinear_arith)
        requires
            w == r + 256 * g + 65536 * b + 16777216 * a,
            0 <= r < 256,
            0 <= g < 256,
            0 <= b < 256,
            0 <= a < 256,
    ;
}

/// A pixel that did not escape within the cap is opaque black; one that
/// escaped at step `n` is opaque, with no red or green, and blue
/// `min(128 + n, 255)`.
pub proof fn lemma_color_channels(n: u32, max_iterations: u32)
    ensures
        red(color_of(n, max_iterations)) == 0,
        green(color_of(n, max_iterations)) == 0,
        alpha(color_of(n, max_iterations)) == 255,
        n >= max_iterations ==> blue(color_of(n, max_iterations)) == 0,
        n < max_iterations ==> blue(color_of(n, max_iterations)) == blue_level(n),
        n < max_iterations ==> blue(color_of(n, max_iterations)) == if 128 + n <= 255 {
            128 + n
        } else {
            255
        },
{
    lemma_packed_channels(0, 0, blue_level(n), 255);
    lemma_packed_channels(0, 0, 0, 255);
}

/// Blue grows with the escape count, and two escaping pixels share a blue
/// level only once both have saturated at 255.
pub proof fn lemma_blue_monotone(n1: u32, n2: u32, max_iterations: u32)
    requires
        n1 < n2 < max_iterations,
    ensures
        blue(color_of(n1, max_iterations)) <= blue(color_of(n2, max_iterations)),
        blue(color_of(n1, max_iterations)) == blue(color_of(n2, max_iterations)) ==> blue(
            color_of(n1, max_iterations),
        ) == 255,
{
    lemma_color_channels(n1, max_iterations);
    lemma_color_channels(n2, max_iterations);
}

/// Packs four channel bytes into one little-endian word, red lowest.
pub fn pack_rgba(channels: [u8; 4]) -> (word: u32)
    ensures
        word == packed(channels@[0], channels@[1], channels@[2], channels@[3]),
{
    let r = channels[0] as u32;
    let g = channels[1] as u32;
    let b = channels[2] as u32;
    let a = channels[3] as u32;
    r + 256 * g + 65536 * b + 16777216 * a
}

/// Splits a packed word into its bytes, in the order red, green, blue, alpha.
pub fn unpack_rgba(word: u32) -> (channels: [u8; 4])
    ensures
        channels@ == seq![red(word), green(word), blue(word), alpha(word)],
{
    let r = (word % 256) as u8;
    let g = ((word / 256) % 256) as u8;
    let b = ((word / 65536) % 256) as u8;
    let a = (word / 16777216) as u8;
    let channels = [r, g, b, a];
    assert(channels@ =~= seq![red(word), green(word), blue(word), alpha(word)]);
    channels
}

/// The packed color of a pixel whose escape count is `iterations`.
pub fn pixel_color(iterations: u32, max_iterations: u32) -> (word: u32)
    ensures
        word == color_of(iterations, max_iterations),
        red(word) == 0,
        green(word) == 0,
        alpha(word) == 255,
        iterations >= max_iterations ==> blue(word) == 0,
        iterations < max_iterations ==> blue(word) == blue_level(iterations),
{
    proof {
        lemma_color_channels(iterations, max_iterations);
    }
    let channels: [u8; 4] = if iterations < max_iterations {
        let blue: u8 = if iterations >= 127 {
            255
        } else {
            (128 + iterations) as u8
        };
        [0, 0, blue, 255]
    } else {
        [0, 0, 0, 255]
    };
    pack_rgba(channels)
}

} // verus!
