//! Plain-text (PPM `P3`) serialization of the frame buffer's byte store.

use vstd::prelude::*;

verus! {

/// ASCII `'0'`.
pub const DIGIT_ZERO: u8 = 48;

/// ASCII space.
pub const SPACE: u8 = 32;

/// ASCII line feed.
pub const NEWLINE: u8 = 10;

/// The decimal digits of `n`, most significant first, as ASCII bytes.
pub open spec fn decimal(n: nat) -> Seq<u8>
    decreases n,
{
    if n < 10 {
        seq![(DIGIT_ZERO + n) as u8]
    } else {
        decimal(n / 10).push((DIGIT_ZERO + n % 10) as u8)
    }
}

/// One image row of the `P3` body: `"r g b\n"` for a pixel's first three
/// channels (the alpha byte is not serialized).
pub open spec fn pixel_line(r: u8, g: u8, b: u8) -> Seq<u8> {
    decimal(r as nat) + seq![SPACE] + decimal(g as nat) + seq![SPACE] + decimal(b as nat)
        + seq![NEWLINE]
}

/// The `P3` body for an RGBA8 byte store: one line per four-byte pixel, in
/// store order; a trailing fragment of fewer than four bytes is ignored.
pub open spec fn ppm_body(data: Seq<u8>) -> Seq<u8>
    decreases data.len(),
{
    if data.len() < 4 {
        Seq::empty()
    } else {
        pixel_line(data[0], data[1], data[2]) + ppm_body(data.skip(4))
    }
}

/// The `P3` header: magic, dimensions and the maximum channel value.
pub open spec fn ppm_header(width: nat, height: nat) -> Seq<u8> {
    seq![80u8, 51u8, NEWLINE] + decimal(width) + seq![SPACE] + decimal(height) + seq![NEWLINE]
        + decimal(255) + seq![NEWLINE]
}

/// The whole `P3` image text for a raster of the given dimensions.
pub open spec fn ppm_text(width: nat, height: nat, data: Seq<u8>) -> Seq<u8> {
    ppm_header(width, height) + ppm_body(data)
}

/// Appends the decimal digits of `n` to `out`.
fn push_decimal(out: &mut Vec<u8>, n: usize)
    ensures
        final(out)@ == old(out)@ + decimal(n as nat),
    decreases n,
{
    if n < 10 {
        out.push(DIGIT_ZERO + n as u8);
    } else {
        push_decimal(out, n / 10);
        let digit = DIGIT_ZERO + (n % 10) as u8;
        out.push(digit);
        proof {
            assert(out@ =~= old(out)@ + decimal(n as nat));
        }
    }
}

/// Serializes an RGBA8 byte store as a plain-text `P3` image: a header with
/// the dimensions, then one `"r g b"` line per pixel in row-major order.
pub fn write_ppm(width: usize, height: usize, data: &[u8]) -> (r: Vec<u8>)
    ensures
        r@ == ppm_text(width as nat, height as nat, data@),
{
    let mut out: Vec<u8> = Vec::new();
    out.push(80);
    out.push(51);
    out.push(NEWLINE);
    push_decimal(&mut out, width);
    out.push(SPACE);
    push_decimal(&mut out, height);
    out.push(NEWLINE);
    push_decimal(&mut out, 255);
    out.push(NEWLINE);
    proof {
        assert(out@ =~= ppm_header(width as nat, height as nat));
        assert(data@.skip(0) =~= data@);
        assert(out@ + ppm_body(data@) =~= ppm_text(width as nat, height as nat, data@));
    }
    let mut i: usize = 0;
    while data.len() - i >= 4
        invariant
            i <= data.len(),
            out@ + ppm_body(data@.skip(i as int)) == ppm_text(
                width as nat,
                height as nat,
                data@,
            ),
        decreases data.len() - i,
    {
        push_decimal(&mut out, data[i] as usize);
        out.push(SPACE);
        push_decimal(&mut out, data[i + 1] as usize);
        out.push(SPACE);
        push_decimal(&mut out, data[i + 2] as usize);
        out.push(NEWLINE);
        proof {
            let rest = data@.skip(i as int);
            assert(rest.len() >= 4);
            assert(rest[0] == data@[i as int]);
            assert(rest[1] == data@[i as int + 1]);
            assert(rest[2] == data@[i as int + 2]);
            assert(rest.skip(4) =~= data@.skip(i as int + 4));
            assert(out@ + ppm_body(data@.skip(i as int + 4)) =~= ppm_text(
                width as nat,
                height as nat,
                data@,
            ));
        }
        i = i + 4;
    }
    proof {
        assert(ppm_body(data@.skip(i as int)) =~= Seq::<u8>::empty());
        assert(out@ =~= ppm_text(width as nat, height as nat, data@));
    }
    out
}

} // verus!
