//! Background pictures: decoding still images and animated GIFs into RGBA
//! bitmaps, and stepping through the frames of an animation.
use image::AnimationDecoder;
use vstd::prelude::*;

verus! {

/// A decoded picture: `width` × `height` pixels, four bytes (R, G, B, A) each,
/// row by row.
pub struct Bitmap {
    pub width: u32,
    pub height: u32,
    pub rgba: Vec<u8>,
}

impl View for Bitmap {
    type V = (u32, u32, Seq<u8>);

    open spec fn view(&self) -> (u32, u32, Seq<u8>) {
        (self.width, self.height, self.rgba@)
    }
}

impl Clone for Bitmap {
    fn clone(&self) -> (r: Self)
        ensures
            r@ == self@,
    {
        Bitmap { width: self.width, height: self.height, rgba: self.rgba.clone() }
    }
}

/// One frame of an animated GIF as the decoder hands it out: the full-canvas
/// picture and its delay as the fraction `delay_numer / delay_denom` of a
/// millisecond.
pub struct GifFrame {
    pub image: Bitmap,
    pub delay_numer: u32,
    pub delay_denom: u32,
}

impl View for GifFrame {
    type V = ((u32, u32, Seq<u8>), u32, u32);

    open spec fn view(&self) -> ((u32, u32, Seq<u8>), u32, u32) {
        (self.image@, self.delay_numer, self.delay_denom)
    }
}

/// What `image::load_from_memory` followed by `to_rgba8` makes of `bytes`:
/// width, height and RGBA bytes, or the decoder's error message.
pub uninterp spec fn decoded_image(bytes: Seq<u8>) -> Result<(u32, u32, Seq<u8>), Seq<char>>;

/// What the `image` crate's GIF decoder makes of `bytes` when all frames are
/// collected: each frame's picture and delay fraction, or the error message of
/// the first failure.
pub uninterp spec fn decoded_gif(bytes: Seq<u8>) -> Result<Seq<((u32, u32, Seq<u8>), u32, u32)>, Seq<char>>;

/// Decodes `bytes` with `image::load_from_memory` (the format is guessed from
/// the content), converts the picture with `DynamicImage::to_rgba8` and hands
/// out its size and raw bytes; an error is turned into its message. The
/// result is stated only through the name `decoded_image`.
#[verifier::external_body]
fn load_rgba(bytes: &[u8]) -> (r: Result<Bitmap, String>)
    ensures
        match r {
            Ok(b) => decoded_image(bytes@) == Ok::<(u32, u32, Seq<u8>), Seq<char>>(b@),
            Err(e) => decoded_image(bytes@) == Err::<(u32, u32, Seq<u8>), Seq<char>>(e@),
        },
{
    match image::load_from_memory(bytes) {
        Ok(img) => {
            let buf = img.to_rgba8();
            Ok(Bitmap { width: buf.width(), height: buf.height(), rgba: buf.into_raw() })
        },
        Err(e) => Err(e.to_string()),
    }
}

/// Opens `bytes` with `image::codecs::gif::GifDecoder`, collects its frames
/// with `into_frames().collect_frames()` and hands out, for each frame, its
/// buffer's size and raw bytes and `Delay::numer_denom_ms`; an error is turned
/// into its message. The result is stated only through the name `decoded_gif`.
#[verifier::external_body]
fn load_gif_frames(bytes: &[u8]) -> (r: Result<Vec<GifFrame>, String>)
    ensures
        match r {
            Ok(v) => decoded_gif(bytes@) == Ok::<Seq<((u32, u32, Seq<u8>), u32, u32)>, Seq<char>>(
                v@.map_values(|f: GifFrame| f@),
            ),
            Err(e) => decoded_gif(bytes@) == Err::<Seq<((u32, u32, Seq<u8>), u32, u32)>, Seq<char>>(e@),
        },
{
    let decoder = image::codecs::gif::GifDecoder::new(std::io::Cursor::new(bytes))
        .map_err(|e| e.to_string())?;
    let frames = decoder.into_frames().collect_frames().map_err(|e| e.to_string())?;
    let mut out = Vec::new();
    for f in frames {
        let (n, d) = f.delay().numer_denom_ms();
        let buf = f.into_buffer();
        let image = Bitmap { width: buf.width(), height: buf.height(), rgba: buf.into_raw() };
        out.push(GifFrame { image, delay_numer: n, delay_denom: d });
    }
    Ok(out)
}

/// Decodes a still picture (PNG, JPEG, GIF's first frame, ...) into RGBA.
pub fn decode_image(bytes: &[u8]) -> (r: Result<Bitmap, String>)
    ensures
        match r {
            Ok(b) => decoded_image(bytes@) == Ok::<(u32, u32, Seq<u8>), Seq<char>>(b@),
            Err(e) => decoded_image(bytes@) == Err::<(u32, u32, Seq<u8>), Seq<char>>(e@),
        },
{
    load_rgba(bytes)
}

/// Whether `bytes` start with the GIF signature `GIF8`.
pub open spec fn has_gif_signature(bytes: Seq<u8>) -> bool {
    bytes.len() >= 4 && bytes[0] == 0x47u8 && bytes[1] == 0x49u8 && bytes[2] == 0x46u8
        && bytes[3] == 0x38u8
}

/// Tells an animated GIF from other pictures by its first four bytes.
pub fn is_gif(bytes: &[u8]) -> (r: bool)
    ensures
        r == has_gif_signature(bytes@),
{
    bytes.len() >= 4 && bytes[0] == 0x47u8 && bytes[1] == 0x49u8 && bytes[2] == 0x46u8
        && bytes[3] == 0x38u8
}

/// How long a frame stays on screen, in milliseconds: its delay fraction
/// rounded down (100 when the denominator is 0), and never under 20.
pub open spec fn frame_delay(numer: u32, denom: u32) -> u32 {
    let ms: u32 = if denom == 0 { 100 } else { (numer / denom) as u32 };
    if ms < 20 { 20 } else { ms }
}

/// The message for a GIF that holds no frame.
pub open spec fn no_frames_message() -> Seq<char> {
    "GIF 无可用帧"@
}

/// The pictures and display times of an animation, from what the decoder
/// gave: its error as it is, an error when there is no frame at all, and
/// otherwise every frame's picture with its delay.
pub open spec fn gif_outcome(decoded: Result<Seq<((u32, u32, Seq<u8>), u32, u32)>, Seq<char>>)
    -> Result<(Seq<(u32, u32, Seq<u8>)>, Seq<u32>), Seq<char>> {
    match decoded {
        Err(e) => Err(e),
        Ok(frames) => if frames.len() == 0 {
            Err(no_frames_message())
        } else {
            Ok(
                (
                    frames.map_values(|f: ((u32, u32, Seq<u8>), u32, u32)| f.0),
                    frames.map_values(|f: ((u32, u32, Seq<u8>), u32, u32)| frame_delay(f.1, f.2)),
                ),
            )
        },
    }
}

/// The view of an animation result: pictures by their views, delays as they are.
pub open spec fn animation_view(r: Result<(Vec<Bitmap>, Vec<u32>), String>) -> Result<
    (Seq<(u32, u32, Seq<u8>)>, Seq<u32>),
    Seq<char>,
> {
    match r {
        Ok((images, delays)) => Ok((images@.map_values(|b: Bitmap| b@), delays@)),
        Err(e) => Err(e@),
    }
}

/// Frame delay in milliseconds from a delay fraction.
pub fn frame_delay_ms(numer: u32, denom: u32) -> (ms: u32)
    ensures
        ms == frame_delay(numer, denom),
{
    let ms: u32 = if denom == 0 { 100 } else { numer / denom };
    if ms < 20 { 20 } else { ms }
}

/// Turns decoded frames into the pictures and display times of an animation;
/// refuses a GIF without frames.
pub fn gif_from_frames(frames: Vec<GifFrame>) -> (r: Result<(Vec<Bitmap>, Vec<u32>), String>)
    ensures
        animation_view(r) == gif_outcome(
            Ok::<Seq<((u32, u32, Seq<u8>), u32, u32)>, Seq<char>>(frames@.map_values(|f: GifFrame| f@)),
        ),
{
    let ghost fv = frames@.map_values(|f: GifFrame| f@);
    if frames.len() == 0 {
        return Err(String::from_str("GIF 无可用帧"));
    }
    let mut images: Vec<Bitmap> = Vec::new();
    let mut delays: Vec<u32> = Vec::new();
    let mut i: usize = 0;
    while i < frames.len()
        invariant
            i <= frames.len(),
            fv == frames@.map_values(|f: GifFrame| f@),
            images@.len() == i,
            delays@.len() == i,
            forall|k: int| 0 <= k < i ==> #[trigger] images@[k]@ == fv[k].0,
            forall|k: int| 0 <= k < i ==> #[trigger] delays@[k] == frame_delay(fv[k].1, fv[k].2),
        decreases frames.len() - i,
    {
        images.push(frames[i].image.clone());
        delays.push(frame_delay_ms(frames[i].delay_numer, frames[i].delay_denom));
        i = i + 1;
    }
    proof {
        assert(images@.map_values(|b: Bitmap| b@) =~= fv.map_values(
            |f: ((u32, u32, Seq<u8>), u32, u32)| f.0,
        ));
        assert(delays@ =~= fv.map_values(
            |f: ((u32, u32, Seq<u8>), u32, u32)| frame_delay(f.1, f.2),
        ));
    }
    Ok((images, delays))
}

/// Decodes an animated GIF into its frames' pictures and display times.
pub fn decode_gif(bytes: &[u8]) -> (r: Result<(Vec<Bitmap>, Vec<u32>), String>)
    ensures
        animation_view(r) == gif_outcome(decoded_gif(bytes@)),
{
    match load_gif_frames(bytes) {
        Ok(frames) => gif_from_frames(frames),
        Err(e) => Err(e),
    }
}

/// How long the frame at `index` stays on screen: its delay (100 ms when
/// there is none at that place), never under 20 ms.
pub open spec fn delay_at(delays: Seq<u32>, index: int) -> u32 {
    let d = if 0 <= index < delays.len() { delays[index] } else { 100u32 };
    if d < 20 { 20 } else { d }
}

/// The delay of the frame at `index`.
pub fn frame_delay_at(delays: &Vec<u32>, index: usize) -> (d: u32)
    ensures
        d == delay_at(delays@, index as int),
{
    let d: u32 = if index < delays.len() { delays[index] } else { 100 };
    if d < 20 { 20 } else { d }
}

/// The frame an animation of `count` frames shows after having shown frame
/// `index` for `elapsed` milliseconds: the next one (wrapping around) once the
/// frame's delay has passed; a still picture never moves.
pub open spec fn next_frame(delays: Seq<u32>, index: int, count: int, elapsed: int) -> int {
    if count > 1 && elapsed >= delay_at(delays, index) {
        (index + 1) % count
    } else {
        index
    }
}

/// One step of a background animation of `count` frames that has shown frame
/// `index` for `elapsed_ms` milliseconds: the frame to show next, whether it
/// changed (the clock restarts then), and after how many milliseconds to look
/// again (never for a still picture).
pub fn animation_step(delays: &Vec<u32>, index: usize, count: usize, elapsed_ms: u128) -> (r: (
    usize,
    bool,
    Option<u32>,
))
    requires
        index < usize::MAX,
    ensures
        r.0 == next_frame(delays@, index as int, count as int, elapsed_ms as int),
        r.1 == (count > 1 && elapsed_ms >= delay_at(delays@, index as int)),
        r.2 == if count > 1 {
            Some(delay_at(delays@, index as int))
        } else {
            None::<u32>
        },
{
    if count <= 1 {
        return (index, false, None);
    }
    let d = frame_delay_at(delays, index);
    if elapsed_ms >= d as u128 {
        ((index + 1) % count, true, Some(d))
    } else {
        (index, false, Some(d))
    }
}

/// The frame that is drawn for `index` among `count` frames: `index`, held to
/// the last frame.
pub fn shown_frame(index: usize, count: usize) -> (r: usize)
    requires
        count > 0,
    ensures
        r == if index < count { index } else { (count - 1) as usize },
{
    if index < count { index } else { count - 1 }
}

} // verus!
