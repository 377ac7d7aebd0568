use vstd::prelude::*;

verus! {

/// The decimal digits of `n` in ASCII, most significant first, no leading zeros.
pub open spec fn decimal(n: nat) -> Seq<u8>
    decreases n,
{
    if n < 10 {
        seq![(48 + n) as u8]
    } else {
        decimal(n / 10).push((48 + n % 10) as u8)
    }
}

/// The header of a plain-text RGB image: the magic `P3`, the width, the
/// height and the largest channel value, each on its own line.
pub open spec fn header(width: nat, height: nat) -> Seq<u8> {
    seq![80u8, 51u8, 10u8] + decimal(width) + seq![10u8] + decimal(height) + seq![10u8]
        + decimal(255) + seq![10u8]
}

/// One pixel: its three channels in decimal, each followed by a space.
pub open spec fn pixel_text(p: (u8, u8, u8)) -> Seq<u8> {
    decimal(p.0 as nat) + seq![32u8] + decimal(p.1 as nat) + seq![32u8] + decimal(p.2 as nat)
        + seq![32u8]
}

/// The pixels in order, one after another.
pub open spec fn pixels_text(pixels: Seq<(u8, u8, u8)>) -> Seq<u8>
    decreases pixels.len(),
{
    if pixels.len() == 0 {
        Seq::empty()
    } else {
        pixels_text(pixels.drop_last()) + pixel_text(pixels.last())
    }
}

fn push_decimal(out: &mut Vec<u8>, n: usize)
    ensures
        final(out)@ == old(out)@ + decimal(n as nat),
    decreases n,
{
    if n >= 10 {
        push_decimal(out, n / 10);
    }
    out.push((48 + n % 10) as u8);
    proof {
        if n < 10 {
            assert(decimal(n as nat) =~= seq![(48 + n) as u8]);
        } else {
            assert(decimal(n as nat) =~= decimal((n / 10) as nat).push((48 + n % 10) as u8));
        }
    }
}

fn push_byte(out: &mut Vec<u8>, b: u8)
    ensures
        final(out)@ == old(out)@ + seq![b],
{
    out.push(b);
    assert(final(out)@ =~= old(out)@ + seq![b]);
}

/// Serializes a `width` by `height` image whose pixels are given row-major,
/// top row first, as gamma-encoded RGB triples. Returns `None` when the
/// number of pixels is not `width * height`.
pub fn encode_ppm(width: usize, height: usize, pixels: &Vec<(u8, u8, u8)>) -> (r: Option<
    Vec<u8>,
>)
    ensures
        r is Some <==> pixels@.len() == width * height,
        r matches Some(bytes) ==> bytes@ == header(width as nat, height as nat) + pixels_text(
            pixels@,
        ),
{
    let len = pixels.len();
    match width.checked_mul(height) {
        Some(n) => {
            if len != n {
                return None;
            }
        },
        None => {
            return None;
        },
    }
    let mut out: Vec<u8> = Vec::new();
    push_byte(&mut out, 80);
    push_byte(&mut out, 51);
    push_byte(&mut out, 10);
    push_decimal(&mut out, width);
    push_byte(&mut out, 10);
    push_decimal(&mut out, height);
    push_byte(&mut out, 10);
    push_decimal(&mut out, 255);
    push_byte(&mut out, 10);
    assert(out@ =~= header(width as nat, height as nat));
    let ghost head = out@;
    let mut i: usize = 0;
    while i < pixels.len()
        invariant
            i <= pixels@.len(),
            out@ == head + pixels_text(pixels@.subrange(0, i as int)),
        decreases pixels@.len() - i,
    {
        let (a, b, c) = pixels[i];
        let ghost before = out@;
        push_decimal(&mut out, a as usize);
        push_byte(&mut out, 32);
        push_decimal(&mut out, b as usize);
        push_byte(&mut out, 32);
        push_decimal(&mut out, c as usize);
        push_byte(&mut out, 32);
        proof {
            let done = pixels@.subrange(0, i + 1);
            assert(done.drop_last() =~= pixels@.subrange(0, i as int));
            assert(done.last() == pixels@[i as int]);
            assert(out@ =~= before + pixel_text(pixels@[i as int]));
            assert(out@ =~= head + pixels_text(done));
        }
        i = i + 1;
    }
    assert(pixels@.subrange(0, pixels@.len() as int) =~= pixels@);
    Some(out)
}

} // verus!
