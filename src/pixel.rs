//! Pixel encodings: how many channels a pixel has and which integer type
//! holds each channel, the criteria by which two pixels count as different,
//! and random pixels drawn from a property-testing generator.

use quickcheck::{Arbitrary, Gen};
use vstd::prelude::*;

verus! {

/// The numeric type of one channel of a pixel.
#[derive(PartialEq, Eq, Structural, Clone, Copy, Debug)]
pub enum Subpixel {
    U8,
    I16,
    U16,
    I32,
    U32,
}

impl Subpixel {
    /// Smallest value of the type.
    pub open spec fn lowest(self) -> int {
        match self {
            Subpixel::U8 => 0,
            Subpixel::I16 => -0x8000,
            Subpixel::U16 => 0,
            Subpixel::I32 => -0x8000_0000,
            Subpixel::U32 => 0,
        }
    }

    /// Largest value of the type.
    pub open spec fn highest(self) -> int {
        match self {
            Subpixel::U8 => 0xff,
            Subpixel::I16 => 0x7fff,
            Subpixel::U16 => 0xffff,
            Subpixel::I32 => 0x7fff_ffff,
            Subpixel::U32 => 0xffff_ffff,
        }
    }

    pub open spec fn holds(self, v: i64) -> bool {
        self.lowest() <= v <= self.highest()
    }

    /// Whether `v` is a value of this type.
    pub fn contains(self, v: i64) -> (r: bool)
        ensures
            r == self.holds(v),
    {
        match self {
            Subpixel::U8 => 0 <= v && v <= 0xff,
            Subpixel::I16 => -0x8000 <= v && v <= 0x7fff,
            Subpixel::U16 => 0 <= v && v <= 0xffff,
            Subpixel::I32 => -0x8000_0000 <= v && v <= 0x7fff_ffff,
            Subpixel::U32 => 0 <= v && v <= 0xffff_ffff,
        }
    }
}

/// A pixel encoding: the number of channels and the type of each channel.
/// Every pixel of a buffer has the buffer's encoding.
#[derive(PartialEq, Eq, Structural, Clone, Copy, Debug)]
pub struct PixelKind {
    pub channels: usize,
    pub subpixel: Subpixel,
}

impl PixelKind {
    /// A grayscale encoding over the given channel type.
    pub fn gray(subpixel: Subpixel) -> (r: PixelKind)
        ensures
            r.channels == 1,
            r.subpixel == subpixel,
    {
        PixelKind { channels: 1, subpixel }
    }

    /// A red, green, blue encoding over the given channel type.
    pub fn rgb(subpixel: Subpixel) -> (r: PixelKind)
        ensures
            r.channels == 3,
            r.subpixel == subpixel,
    {
        PixelKind { channels: 3, subpixel }
    }

    pub fn channel_count(&self) -> (r: usize)
        ensures
            r == self.channels,
    {
        self.channels
    }

    /// `p` is a pixel of this encoding.
    pub open spec fn admits(self, p: Seq<i64>) -> bool {
        &&& p.len() == self.channels
        &&& forall|k: int| 0 <= k < p.len() ==> self.subpixel.holds(#[trigger] p[k])
    }

    /// Whether `p` is a pixel of this encoding.
    pub fn accepts(&self, p: &Vec<i64>) -> (r: bool)
        ensures
            r == self.admits(p@),
    {
        if p.len() != self.channels {
            return false;
        }
        let mut k: usize = 0;
        while k < p.len()
            invariant
                k <= p@.len(),
                forall|j: int| 0 <= j < k ==> self.subpixel.holds(#[trigger] p@[j]),
            decreases p@.len() - k,
        {
            if !self.subpixel.contains(p[k]) {
                return false;
            }
            k += 1;
        }
        true
    }

    /// A random pixel of this encoding, one channel after the other, each
    /// drawn from `g` as a value of the channel type.
    pub fn random_pixel(&self, g: &mut Gen) -> (r: Vec<i64>)
        ensures
            self.admits(r@),
    {
        let mut p: Vec<i64> = Vec::new();
        let mut k: usize = 0;
        while k < self.channels
            invariant
                k <= self.channels,
                p@.len() == k,
                forall|j: int| 0 <= j < k ==> self.subpixel.holds(#[trigger] p@[j]),
            decreases self.channels - k,
        {
            let v: i64 = match self.subpixel {
                Subpixel::U8 => draw_u8(g) as i64,
                Subpixel::I16 => draw_i16(g) as i64,
                Subpixel::U16 => draw_u16(g) as i64,
                Subpixel::I32 => draw_i32(g) as i64,
                Subpixel::U32 => draw_u32(g) as i64,
            };
            p.push(v);
            k += 1;
        }
        p
    }
}

/// A generator of random pixels, as a property-testing engine needs one for
/// every pixel encoding it builds buffers of.
pub trait ArbitraryPixel {
    /// Draws one random pixel from `g`.
    fn arbitrary(&self, g: &mut Gen) -> Vec<i64>;
}

impl ArbitraryPixel for PixelKind {
    fn arbitrary(&self, g: &mut Gen) -> Vec<i64> {
        self.random_pixel(g)
    }
}

#[verifier::external_type_specification]
#[verifier::external_body]
pub struct ExGen(Gen);

/// Relies on quickcheck's `Arbitrary for u8`: a random byte from `g`.
#[verifier::external_body]
pub(crate) fn draw_u8(g: &mut Gen) -> u8 {
    <u8 as Arbitrary>::arbitrary(g)
}

/// Relies on quickcheck's `Arbitrary for i16`: a random value from `g`.
#[verifier::external_body]
fn draw_i16(g: &mut Gen) -> i16 {
    <i16 as Arbitrary>::arbitrary(g)
}

/// Relies on quickcheck's `Arbitrary for u16`: a random value from `g`.
#[verifier::external_body]
fn draw_u16(g: &mut Gen) -> u16 {
    <u16 as Arbitrary>::arbitrary(g)
}

/// Relies on quickcheck's `Arbitrary for i32`: a random value from `g`.
#[verifier::external_body]
fn draw_i32(g: &mut Gen) -> i32 {
    <i32 as Arbitrary>::arbitrary(g)
}

/// Relies on quickcheck's `Arbitrary for u32`: a random value from `g`.
#[verifier::external_body]
fn draw_u32(g: &mut Gen) -> u32 {
    <u32 as Arbitrary>::arbitrary(g)
}

/// How a pair of pixels is judged significantly different.
#[derive(PartialEq, Eq, Structural, Clone, Copy, Debug)]
pub enum Criterion {
    /// Any difference at all.
    Exact,
    /// Some channel differs by more than the tolerance.
    Within(u32),
}

/// Absolute difference of two channel values.
pub open spec fn channel_gap(a: i64, b: i64) -> int {
    if a >= b {
        a - b
    } else {
        b - a
    }
}

/// Some channel of `p` and `q` differs by more than `tol`.
pub open spec fn exceeds_tolerance(p: Seq<i64>, q: Seq<i64>, tol: int) -> bool {
    exists|k: int| 0 <= k < p.len() && channel_gap(p[k], q[k]) > tol
}

/// The pixels `p` and `q` count as different under `c`.
pub open spec fn significant(c: Criterion, p: Seq<i64>, q: Seq<i64>) -> bool {
    match c {
        Criterion::Exact => p != q,
        Criterion::Within(tol) => exceeds_tolerance(p, q, tol as int),
    }
}

/// Whether some channel of `p` and `q` differs by more than `tol`. The two
/// pixels must have the same number of channels.
pub fn differ_beyond(p: &Vec<i64>, q: &Vec<i64>, tol: u32) -> (r: bool)
    requires
        p@.len() == q@.len(),
    ensures
        r == exceeds_tolerance(p@, q@, tol as int),
        !r <==> forall|k: int| 0 <= k < p@.len() ==> channel_gap(#[trigger] p@[k], q@[k]) <= tol,
{
    let mut k: usize = 0;
    while k < p.len()
        invariant
            k <= p@.len(),
            p@.len() == q@.len(),
            forall|j: int| 0 <= j < k ==> channel_gap(#[trigger] p@[j], q@[j]) <= tol,
        decreases p@.len() - k,
    {
        let a = p[k] as i128;
        let b = q[k] as i128;
        let gap: i128 = if a >= b { a - b } else { b - a };
        if gap > tol as i128 {
            return true;
        }
        k += 1;
    }
    false
}

/// A copy of a pixel.
pub fn copy_pixel(p: &Vec<i64>) -> (r: Vec<i64>)
    ensures
        r@ == p@,
{
    let mut r: Vec<i64> = Vec::new();
    let mut k: usize = 0;
    while k < p.len()
        invariant
            k <= p@.len(),
            r@ == p@.subrange(0, k as int),
        decreases p@.len() - k,
    {
        r.push(p[k]);
        k += 1;
        assert(r@ =~= p@.subrange(0, k as int));
    }
    assert(r@ =~= p@);
    r
}

/// Whether two pixels are equal channel by channel.
pub fn same_pixel(p: &Vec<i64>, q: &Vec<i64>) -> (r: bool)
    ensures
        r == (p@ == q@),
{
    if p.len() != q.len() {
        return false;
    }
    let mut k: usize = 0;
    while k < p.len()
        invariant
            k <= p@.len(),
            p@.len() == q@.len(),
            forall|j: int| 0 <= j < k ==> p@[j] == q@[j],
        decreases p@.len() - k,
    {
        if p[k] != q[k] {
            return false;
        }
        k += 1;
    }
    assert(p@ =~= q@);
    true
}

/// Whether `p` and `q` count as different under `c`. A tolerance criterion
/// asks for pixels with the same number of channels.
pub fn pixels_differ(c: Criterion, p: &Vec<i64>, q: &Vec<i64>) -> (r: bool)
    requires
        c is Within ==> p@.len() == q@.len(),
    ensures
        r == significant(c, p@, q@),
{
    match c {
        Criterion::Exact => !same_pixel(p, q),
        Criterion::Within(tol) => differ_beyond(p, q, tol),
    }
}

} // verus!
