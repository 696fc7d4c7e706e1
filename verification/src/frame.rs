use vstd::prelude::*;

verus! {

/// Decodes `data` with `image::load_from_memory`, which guesses the format
/// from the bytes, and converts the picture to 8-bit greyscale with
/// `to_luma8`, giving the width, the height and the samples row by row; on
/// failure, the decoder's error as text. Trusted: a decoded sample buffer
/// holds at least width times height samples, as `ImageBuffer` checks in each
/// of its constructors. Which picture, if any, comes out of which bytes is not
/// stated: the format and decoder are chosen at run time, from hooks that any
/// code of the process may register.
#[verifier::external_body]
fn decode_greyscale(data: &[u8]) -> (decoded: Result<(u32, u32, Vec<u8>), String>)
    ensures
        decoded matches Ok((w, h, samples)) ==> w * h <= samples@.len(),
{
    match image::load_from_memory(data) {
        Ok(picture) => {
            let grey = picture.to_luma8();
            let (w, h) = grey.dimensions();
            Ok((w, h, grey.into_raw()))
        },
        Err(e) => Err(e.to_string()),
    }
}

/// A camera frame in 8-bit greyscale, stored row by row.
pub struct GreyFrame {
    width: u32,
    height: u32,
    samples: Vec<u8>,
}

impl GreyFrame {
    #[verifier::type_invariant]
    spec fn inv(self) -> bool {
        self.width * self.height <= self.samples@.len()
    }

    /// The width in pixels.
    pub closed spec fn spec_width(self) -> u32 {
        self.width
    }

    /// The height in pixels.
    pub closed spec fn spec_height(self) -> u32 {
        self.height
    }

    /// The samples, row by row.
    pub closed spec fn spec_samples(self) -> Seq<u8> {
        self.samples@
    }

    /// The frame of `width` by `height` pixels whose grey levels, row by row,
    /// begin `samples`; `None` when `samples` is too short for that many
    /// pixels.
    pub fn from_samples(width: u32, height: u32, samples: Vec<u8>) -> (frame: Option<GreyFrame>)
        ensures
            match frame {
                Some(f) => width * height <= samples@.len() && f.spec_width() == width
                    && f.spec_height() == height && f.spec_samples() == samples@,
                None => width * height > samples@.len(),
            },
    {
        let w = width as u64;
        let h = height as u64;
        assert(w * h <= u32::MAX * u32::MAX) by (nonlinear_arith)
            requires
                w <= u32::MAX,
                h <= u32::MAX,
        ;
        let needed = w * h;
        if needed <= samples.len() as u64 {
            Some(GreyFrame { width, height, samples })
        } else {
            None
        }
    }

    /// The width in pixels.
    pub fn width(&self) -> (w: u32)
        ensures
            w == self.spec_width(),
    {
        self.width
    }

    /// The height in pixels.
    pub fn height(&self) -> (h: u32)
        ensures
            h == self.spec_height(),
    {
        self.height
    }

    /// The grey level of the pixel in column `x` and row `y`.
    pub fn pixel(&self, x: u32, y: u32) -> (level: u8)
        requires
            x < self.spec_width(),
            y < self.spec_height(),
        ensures
            level == self.spec_samples()[y * self.spec_width() + x],
    {
        proof {
            use_type_invariant(self);
        }
        let w = self.width as u64;
        let yy = y as u64;
        let xx = x as u64;
        let len = self.samples.len();
        proof {
            let h = self.height as u64;
            assert(yy * w + xx < w * h) by (nonlinear_arith)
                requires
                    xx < w,
                    yy < h,
            ;
            assert(w * h <= len);
        }
        let i = yy * w + xx;
        self.samples[i as usize]
    }
}

/// Why a camera frame could not be read.
pub enum FrameError {
    /// The bytes are no picture that the decoder reads; the decoder's message.
    Undecodable(String),
}

/// Whether `(width, height, samples)` is a picture that the decoder gave
/// when it was called on `data`.
pub closed spec fn decoder_gave(data: &[u8], width: u32, height: u32, samples: Seq<u8>) -> bool {
    exists|v: Vec<u8>| v@ == samples && #[trigger] call_ensures(decode_greyscale, (data,), Ok((width, height, v)))
}

/// Whether the picture that the decoder gave for `data`, `width` pixels wide
/// and `height` pixels tall, has grey level `level` in column `x`, row `y`.
pub closed spec fn decoder_pixel(data: &[u8], width: u32, height: u32, x: u32, y: u32, level: u8) -> bool {
    exists|v: Vec<u8>| #[trigger] call_ensures(decode_greyscale, (data,), Ok((width, height, v)))
        && v@[y * width + x] == level
}

/// A decoded frame shows the decoder's picture in the decoder's orientation:
/// the pixel a frame holds in column `x`, row `y` (the sample at
/// `y * width + x`) is the decoder's pixel in that column and row, and that
/// sample lies within the frame.
pub proof fn law_decoded_pixel(data: &[u8], f: GreyFrame, x: u32, y: u32)
    requires
        decoder_gave(data, f.spec_width(), f.spec_height(), f.spec_samples()),
        x < f.spec_width(),
        y < f.spec_height(),
    ensures
        y * f.spec_width() + x < f.spec_samples().len(),
        decoder_pixel(data, f.spec_width(), f.spec_height(), x, y, f.spec_samples()[y * f.spec_width() + x]),
{
    let w = f.spec_width();
    let h = f.spec_height();
    let v = choose|v: Vec<u8>| v@ == f.spec_samples() && #[trigger] call_ensures(decode_greyscale, (data,), Ok((w, h, v)));
    assert(w * h <= v@.len());
    assert(y * w + x < w * h) by (nonlinear_arith)
        requires
            x < w,
            y < h,
    ;
}

/// Whether the decoder, called on `data`, failed with `message`.
pub closed spec fn decoder_failed(data: &[u8], message: String) -> bool {
    call_ensures(decode_greyscale, (data,), Err(message))
}

/// Decodes a camera frame (an encoded picture, such as JPEG or PNG) into
/// greyscale. The bytes go to the decoder unchanged, and the library adds no
/// error of its own: a frame is the decoder's picture as it is, with the
/// decoder's width, height and samples, and an error is the decoder's.
pub fn decode_frame(data: &[u8]) -> (frame: Result<GreyFrame, FrameError>)
    ensures
        frame matches Ok(f) ==> f.spec_width() * f.spec_height() <= f.spec_samples().len(),
        frame matches Ok(f) ==> decoder_gave(data, f.spec_width(), f.spec_height(), f.spec_samples()),
        frame matches Err(FrameError::Undecodable(m)) ==> decoder_failed(data, m),
{
    // Called through its function value, so that what it gave is on record
    // (`call_ensures`) for the contract to speak of.
    let decode = decode_greyscale;
    let decoded = decode(data);
    match decoded {
        Ok((width, height, samples)) => {
            assert(call_ensures(decode_greyscale, (data,), Ok((width, height, samples))));
            Ok(GreyFrame { width, height, samples })
        },
        Err(message) => Err(FrameError::Undecodable(message)),
    }
}

} // verus!
