//! Bitmaps in the exported file: an image becomes a compressed bitmap and a
//! rectangle filled with it; an animated image, whose frames lie side by
//! side, becomes one such pair per frame and a sprite that shows them one
//! after the other.
use vstd::prelude::*;
use crate::export::{
    CharacterId, ExportError, ExportTag, ExportTagView, PlaceObjectTag, PlaceObjectTagView, Placement,
    SpriteTag,
    SpriteTagView, SwfBuilder, sprite_tags_view, tags_view,
};
use crate::movie::{Animation, BitmapProperties, SymbolIndex};

verus! {

/// An image as the `image` crate decodes it: its size and its pixels as
/// four bytes (red, green, blue, alpha) per pixel, row by row.
pub struct RgbaImage {
    pub width: u32,
    pub height: u32,
    pub rgba: Vec<u8>,
}

pub struct RgbaImageView {
    pub width: u32,
    pub height: u32,
    pub rgba: Seq<u8>,
}

impl View for RgbaImage {
    type V = RgbaImageView;

    open spec fn view(&self) -> RgbaImageView {
        RgbaImageView { width: self.width, height: self.height, rgba: self.rgba@ }
    }
}

/// What the `image` crate decodes from a file's bytes, the format taken
/// from the extension of the file's path: the image, or the message of its
/// error.
pub uninterp spec fn image_decoded(path: Seq<char>, bytes: Seq<u8>) -> Result<
    RgbaImageView,
    Seq<char>,
>;

pub open spec fn rgba_result_view(r: Result<RgbaImage, String>) -> Result<RgbaImageView, Seq<char>> {
    match r {
        Ok(i) => Ok(i@),
        Err(m) => Err(m@),
    }
}

/// Decodes an image with an `image::ImageReader` over the bytes, with the
/// format `image::ImageFormat::from_path` gives for the path (none where
/// the extension is not known, which the reader reports as unsupported),
/// and converts it with `into_rgba8`. Claimed: the result is
/// `image_decoded` of the path and the bytes.
#[verifier::external_body]
fn decode_image(path: &String, bytes: &Vec<u8>) -> (r: Result<RgbaImage, String>)
    ensures
        rgba_result_view(r) == image_decoded(path@, bytes@),
{
    let cursor = std::io::Cursor::new(bytes.as_slice());
    let reader = match image::ImageFormat::from_path(path.as_str()) {
        Ok(format) => image::ImageReader::with_format(cursor, format),
        Err(_) => image::ImageReader::new(cursor),
    };
    match reader.decode() {
        Ok(image) => {
            let rgba = image.into_rgba8();
            Ok(RgbaImage { width: rgba.width(), height: rgba.height(), rgba: rgba.into_raw() })
        },
        Err(err) => Err(err.to_string()),
    }
}

/// Why the image of a bitmap could not be had.
pub enum ImageReadError {
    /// its file could not be read: the message
    Read(String),
    /// its bytes could not be decoded: the message
    Decode(String),
}

/// The image of a bitmap from the contents of its file (or the message of
/// why the file could not be read), decoded with the format of its path.
pub fn read_image(path: &String, file: &Result<Vec<u8>, String>) -> (r: Result<
    RgbaImage,
    ImageReadError,
>)
    ensures
        *file matches Err(m) ==> (r matches Err(ImageReadError::Read(x)) && x == m),
        *file matches Ok(bytes) ==> match image_decoded(path@, bytes@) {
            Ok(i) => r matches Ok(img) && img@ == i,
            Err(m) => r matches Err(ImageReadError::Decode(x)) && x@ == m,
        },
{
    match file {
        Err(m) => Err(ImageReadError::Read(m.clone())),
        Ok(bytes) => match decode_image(path, bytes) {
            Ok(img) => Ok(img),
            Err(m) => Err(ImageReadError::Decode(m)),
        },
    }
}

/// A decoded image: its pixels premultiplied by their alpha, as four bytes
/// (alpha, red, green, blue) per pixel, row by row.
pub struct DecodedImage {
    pub width: u32,
    pub height: u32,
    pub argb: Vec<u8>,
}

/// The pixels of frame `frame_nr` of an image made of frames of
/// `frame_width` pixels side by side, row by row.
pub open spec fn frame_pixels(
    argb: Seq<u8>,
    image_width: int,
    frame_width: int,
    frame_height: int,
    frame_nr: int,
) -> Seq<u8> {
    Seq::new(
        (frame_width * frame_height * 4) as nat,
        |n: int|
            {
                let p = n / 4;
                argb[((p % frame_width) + (p / frame_width) * image_width + frame_nr * frame_width)
                    * 4 + n % 4]
            },
    )
}

proof fn lemma_pixel_position(i: int, j: int, c: int, frame_width: int)
    requires
        0 <= i < frame_width,
        0 <= j,
        0 <= c < 4,
    ensures
        ((j * frame_width + i) * 4 + c) / 4 == j * frame_width + i,
        ((j * frame_width + i) * 4 + c) % 4 == c,
        (j * frame_width + i) / frame_width == j,
        (j * frame_width + i) % frame_width == i,
{
    vstd::arithmetic::div_mod::lemma_fundamental_div_mod_converse(
        (j * frame_width + i) * 4 + c,
        4,
        j * frame_width + i,
        c,
    );
    vstd::arithmetic::div_mod::lemma_fundamental_div_mod_converse(
        j * frame_width + i,
        frame_width,
        j,
        i,
    );
}

proof fn lemma_source_in_bounds(
    i: int,
    j: int,
    frame_nr: int,
    frame_width: int,
    image_width: int,
    image_height: int,
)
    requires
        0 <= i < frame_width,
        0 <= j < image_height,
        0 <= frame_nr,
        (frame_nr + 1) * frame_width <= image_width,
    ensures
        0 <= (i + j * image_width + frame_nr * frame_width) * 4 + 3 < image_width * image_height * 4,
{
    assert(i + frame_nr * frame_width < image_width) by (nonlinear_arith)
        requires
            0 <= i < frame_width,
            (frame_nr + 1) * frame_width <= image_width,
    ;
    assert(i + j * image_width + frame_nr * frame_width < image_width * image_height) by (
    nonlinear_arith)
        requires
            0 <= i + frame_nr * frame_width < image_width,
            0 <= j < image_height,
    ;
    assert(0 <= j * image_width) by (nonlinear_arith)
        requires
            0 <= j,
            0 <= image_width,
    ;
    assert(0 <= frame_nr * frame_width) by (nonlinear_arith)
        requires
            0 <= frame_nr,
            0 <= frame_width,
    ;
}

/// Copies a frame out of an image made of frames side by side.
pub fn frame_data(
    argb: &Vec<u8>,
    image_width: u32,
    image_height: u32,
    frame_width: u32,
    frame_nr: u32,
) -> (r: Vec<u8>)
    requires
        argb.len() == image_width * image_height * 4,
        image_width * image_height * 4 <= u32::MAX,
        frame_width >= 1,
        (frame_nr + 1) * frame_width <= image_width,
    ensures
        r@ == frame_pixels(
            argb@,
            image_width as int,
            frame_width as int,
            image_height as int,
            frame_nr as int,
        ),
{
    let ghost expected = frame_pixels(
        argb@,
        image_width as int,
        frame_width as int,
        image_height as int,
        frame_nr as int,
    );
    proof {
        assert(frame_nr * frame_width <= image_width) by (nonlinear_arith)
            requires
                (frame_nr + 1) * frame_width <= image_width,
                frame_width >= 1,
        ;
        assert(frame_width * image_height * 4 <= image_width * image_height * 4) by (
        nonlinear_arith)
            requires
                (frame_nr + 1) * frame_width <= image_width,
                frame_width >= 1,
        ;
    }
    let mut frame: Vec<u8> = Vec::new();
    let mut j: u32 = 0;
    while j < image_height
        invariant
            argb.len() == image_width * image_height * 4,
            image_width * image_height * 4 <= u32::MAX,
            frame_width >= 1,
            (frame_nr + 1) * frame_width <= image_width,
            frame_nr * frame_width <= image_width,
            j <= image_height,
            frame@.len() == j * frame_width * 4,
            frame@ == expected.take(frame@.len() as int),
            expected.len() == frame_width * image_height * 4,
            expected == frame_pixels(
                argb@,
                image_width as int,
                frame_width as int,
                image_height as int,
                frame_nr as int,
            ),
        decreases image_height - j,
    {
        let mut i: u32 = 0;
        while i < frame_width
            invariant
                argb.len() == image_width * image_height * 4,
                image_width * image_height * 4 <= u32::MAX,
                frame_width >= 1,
                (frame_nr + 1) * frame_width <= image_width,
                frame_nr * frame_width <= image_width,
                j < image_height,
                i <= frame_width,
                frame@.len() == (j * frame_width + i) * 4,
                frame@ == expected.take(frame@.len() as int),
                expected.len() == frame_width * image_height * 4,
                expected == frame_pixels(
                    argb@,
                    image_width as int,
                    frame_width as int,
                    image_height as int,
                    frame_nr as int,
                ),
            decreases frame_width - i,
        {
            proof {
                lemma_source_in_bounds(
                    i as int,
                    j as int,
                    frame_nr as int,
                    frame_width as int,
                    image_width as int,
                    image_height as int,
                );
                assert((j * frame_width + i) * 4 + 4 <= frame_width * image_height * 4) by (
                nonlinear_arith)
                    requires
                        i < frame_width,
                        j < image_height,
                ;
            }
            let image_index: usize = ((i + j * image_width + frame_nr * frame_width) * 4) as usize;
            let mut c: usize = 0;
            while c < 4
                invariant
                    argb.len() == image_width * image_height * 4,
                    image_index + 3 < argb.len(),
                    image_index == (i + j * image_width + frame_nr * frame_width) * 4,
                    i < frame_width,
                    j < image_height,
                    c <= 4,
                    frame@.len() == (j * frame_width + i) * 4 + c,
                    (j * frame_width + i) * 4 + 4 <= expected.len(),
                    frame@ == expected.take(frame@.len() as int),
                    expected == frame_pixels(
                        argb@,
                        image_width as int,
                        frame_width as int,
                        image_height as int,
                        frame_nr as int,
                    ),
                decreases 4 - c,
            {
                proof {
                    lemma_pixel_position(i as int, j as int, c as int, frame_width as int);
                }
                let ghost n = frame@.len() as int;
                frame.push(argb[image_index + c]);
                assert(frame@ =~= expected.take(n + 1));
                c = c + 1;
            }
            i = i + 1;
        }
        j = j + 1;
        assert(frame@.len() == j * frame_width * 4) by (nonlinear_arith)
            requires
                frame@.len() == ((j - 1) * frame_width + frame_width) * 4,
        ;
    }
    assert(frame@.len() == expected.len()) by (nonlinear_arith)
        requires
            frame@.len() == image_height * frame_width * 4,
            expected.len() == frame_width * image_height * 4,
    ;
    assert(frame@ =~= expected);
    frame
}

/// The bytes that flate2's zlib encoder makes of `data` at its best
/// compression level.
pub uninterp spec fn zlib_compressed(data: Seq<u8>) -> Seq<u8>;

/// Compresses bytes with `flate2::write::ZlibEncoder` at
/// `flate2::Compression::best()`: writes them all and finishes the stream.
/// What the encoder makes of the bytes is named, not described. The
/// encoder writes into a `Vec`, which takes every write, and its deflate
/// stream reports an error only for a misused stream, so the call succeeds;
/// an `Err` would carry the encoder's message.
#[verifier::external_body]
fn compress_best(data: &[u8]) -> (r: Result<Vec<u8>, String>)
    ensures
        r is Ok,
        r matches Ok(v) ==> v@ == zlib_compressed(data@),
{
    let mut encoder = flate2::write::ZlibEncoder::new(Vec::new(), flate2::Compression::best());
    match std::io::Write::write_all(&mut encoder, data) {
        Ok(()) => {},
        Err(err) => return Err(err.to_string()),
    }
    encoder.finish().map_err(|err| err.to_string())
}

/// Compressed image data shorter than 1024 bytes is padded with zeros to
/// 1024 bytes: small images disappear in the Flash player otherwise.
pub open spec fn padded(c: Seq<u8>) -> Seq<u8> {
    if c.len() < 1024 {
        c + Seq::new((1024 - c.len()) as nat, |i: int| 0u8)
    } else {
        c
    }
}

pub fn pad_compressed(compressed: &mut Vec<u8>)
    ensures
        final(compressed)@ == padded(old(compressed)@),
{
    if compressed.len() < 1024 {
        let ghost c = compressed@;
        let missing = 1024 - compressed.len();
        let mut k: usize = 0;
        while k < missing
            invariant
                k <= missing,
                missing == 1024 - c.len(),
                compressed@ == c + Seq::new(k as nat, |i: int| 0u8),
            decreases missing - k,
        {
            compressed.push(0);
            k = k + 1;
            assert(compressed@ =~= c + Seq::new(k as nat, |i: int| 0u8));
        }
    }
}

/// The number of frames of a bitmap's animation, 1 without one.
pub open spec fn animation_frames(animation: Option<Animation>) -> int {
    match animation {
        None => 1,
        Some(a) => a.frame_count as int,
    }
}

/// How many frames of the movie each frame of the animation is shown for.
pub open spec fn frames_per_image(animation: Option<Animation>) -> int {
    match animation {
        None => 1,
        Some(a) => a.frame_delay + 1,
    }
}

/// The pixels of frame `k`: the whole image when there is one frame.
pub open spec fn frame_source(img: DecodedImage, frame_count: int, frame_width: int, k: int) -> Seq<
    u8,
> {
    if frame_count == 1 {
        img.argb@
    } else {
        frame_pixels(img.argb@, img.width as int, frame_width, img.height as int, k)
    }
}

/// The two tags of every frame before `k`: the compressed bitmap and the
/// rectangle filled with it, with ids handed out from `base` on.
pub open spec fn frames_tags(
    img: DecodedImage,
    frame_count: int,
    frame_width: int,
    base: int,
    k: int,
) -> Seq<ExportTagView>
    decreases k,
{
    if k <= 0 {
        Seq::empty()
    } else {
        frames_tags(img, frame_count, frame_width, base, k - 1) + seq![
            ExportTagView::DefineBitsLossless {
                id: (base + 2 * (k - 1)) as u16,
                width: frame_width as u16,
                height: img.height as u16,
                data: padded(zlib_compressed(frame_source(img, frame_count, frame_width, k - 1))),
            },
            ExportTagView::DefineBitmapShape {
                id: (base + 2 * (k - 1) + 1) as u16,
                bitmap_id: (base + 2 * (k - 1)) as u16,
                width: frame_width as u32,
                height: img.height,
            },
        ]
    }
}

/// The timeline of an animation's sprite for its frames before `k`: each
/// frame's rectangle is placed (replacing the one before) centered on the
/// origin and shown for `per_image` frames.
pub open spec fn animation_sprite_tags(
    base: int,
    per_image: int,
    frame_width: u32,
    frame_height: u32,
    k: int,
) -> Seq<SpriteTagView>
    decreases k,
{
    if k <= 0 {
        Seq::empty()
    } else {
        animation_sprite_tags(base, per_image, frame_width, frame_height, k - 1) + seq![
            SpriteTagView::PlaceObject(
                PlaceObjectTagView {
                    character_id: (base + 2 * (k - 1) + 1) as u16,
                    depth: 1,
                    replace: k - 1 > 0,
                    placement: Placement::Centered(frame_width, frame_height),
                    name: None,
                },
            ),
        ] + Seq::new(per_image as nat, |i: int| SpriteTagView::ShowFrame)
    }
}

/// The ids that exporting the bitmap hands out.
pub open spec fn bitmap_ids_needed(frame_count: int) -> int {
    if frame_count > 1 {
        2 * frame_count + 1
    } else {
        2 * frame_count
    }
}

/// The tags of an exported bitmap, from the id `base` on.
pub open spec fn bitmap_tags(
    properties: BitmapProperties,
    img: DecodedImage,
    base: int,
) -> Seq<ExportTagView> {
    let fc = animation_frames(properties.animation);
    let fw = img.width / (fc as u32);
    let frames = frames_tags(img, fc, fw as int, base, fc);
    if fc > 1 {
        let a = properties.animation->0;
        let sprite_tags = animation_sprite_tags(
            base,
            frames_per_image(properties.animation),
            fw,
            img.height,
            fc,
        );
        let id = (base + 2 * fc) as u16;
        let num_frames = (fc * frames_per_image(properties.animation)) as u16;
        frames + seq![
            if a.end_action@.len() == 0 {
                ExportTagView::DefineSprite { id, num_frames, tags: sprite_tags }
            } else {
                ExportTagView::DefineSpriteWithEndAction {
                    id,
                    num_frames,
                    tags: sprite_tags,
                    end_action: a.end_action,
                }
            },
            ExportTagView::ExportAssets { id, name: properties.name },
        ]
    } else {
        frames
    }
}

/// The sprite timeline of an animation.
fn animation_sprite(
    base: CharacterId,
    frame_count: u32,
    frames_per_animation_frame: u32,
    frame_width: u32,
    frame_height: u32,
) -> (r: Vec<SpriteTag>)
    requires
        frame_count > 1,
        base + 2 * frame_count <= u16::MAX,
        frames_per_animation_frame >= 1,
    ensures
        sprite_tags_view(r@) == animation_sprite_tags(
            base as int,
            frames_per_animation_frame as int,
            frame_width,
            frame_height,
            frame_count as int,
        ),
{
    let movieclip_id: CharacterId = base + 2 * (frame_count as u16);
    let mut tags: Vec<SpriteTag> = Vec::new();
    let mut frame_nr: u32 = 0;
    while frame_nr < frame_count
        invariant
            frame_count > 1,
            base + 2 * frame_count <= u16::MAX,
            movieclip_id == base + 2 * frame_count,
            frame_nr <= frame_count,
            sprite_tags_view(tags@) == animation_sprite_tags(
                base as int,
                frames_per_animation_frame as int,
                frame_width,
                frame_height,
                frame_nr as int,
            ),
        decreases frame_count - frame_nr,
    {
        // the rectangle of this frame, counted back from the sprite's id
        let character_id = movieclip_id - (frame_count * 2) as u16 + (frame_nr * 2) as u16 + 1;
        let ghost before = sprite_tags_view(tags@);
        tags.push(
            SpriteTag::PlaceObject(
                PlaceObjectTag {
                    character_id,
                    depth: 1,
                    // place on the first frame, replace on the other ones
                    replace: frame_nr != 0,
                    placement: Placement::Centered(frame_width, frame_height),
                    name: None,
                },
            ),
        );
        let mut shown: u32 = 0;
        while shown < frames_per_animation_frame
            invariant
                shown <= frames_per_animation_frame,
                sprite_tags_view(tags@) == before + seq![
                    SpriteTagView::PlaceObject(
                        PlaceObjectTagView {
                            character_id,
                            depth: 1,
                            replace: frame_nr != 0,
                            placement: Placement::Centered(frame_width, frame_height),
                            name: None,
                        },
                    ),
                ] + Seq::new(shown as nat, |i: int| SpriteTagView::ShowFrame),
            decreases frames_per_animation_frame - shown,
        {
            let ghost prev = sprite_tags_view(tags@);
            tags.push(SpriteTag::ShowFrame);
            assert(sprite_tags_view(tags@) =~= prev.push(SpriteTagView::ShowFrame));
            shown = shown + 1;
            assert(sprite_tags_view(tags@) =~= before + seq![
                SpriteTagView::PlaceObject(
                    PlaceObjectTagView {
                        character_id,
                        depth: 1,
                        replace: frame_nr != 0,
                        placement: Placement::Centered(frame_width, frame_height),
                        name: None,
                    },
                ),
            ] + Seq::new(shown as nat, |i: int| SpriteTagView::ShowFrame));
        }
        frame_nr = frame_nr + 1;
    }
    tags
}

proof fn lemma_frame_width(image_width: u32, frame_count: u32)
    requires
        0 < frame_count <= image_width,
    ensures
        image_width / frame_count >= 1,
        frame_count * (image_width / frame_count) <= image_width,
{
    let w = image_width as int;
    let c = frame_count as int;
    vstd::arithmetic::div_mod::lemma_fundamental_div_mod(w, c);
    let q = w / c;
    assert(q >= 1) by (nonlinear_arith)
        requires
            w == c * q + w % c,
            0 <= w % c < c,
            c <= w,
    ;
}

proof fn lemma_frame_fits(image_width: u32, frame_count: u32, k: u32)
    requires
        0 <= k < frame_count <= image_width,
    ensures
        (k + 1) * (image_width / frame_count) <= image_width,
{
    let w = image_width as int;
    let c = frame_count as int;
    vstd::arithmetic::div_mod::lemma_fundamental_div_mod(w, c);
    let q = w / c;
    assert((k + 1) * q <= w) by (nonlinear_arith)
        requires
            w == c * q + w % c,
            0 <= w % c,
            0 <= k < c,
            q >= 0,
    ;
}

/// Exports a bitmap symbol: checks that its animation has no more frames
/// than the image is wide, then adds, frame by frame, the compressed pixels
/// (padded to 1024 bytes) and a rectangle filled with them. A still image's
/// rectangle is its character; an animation gets a sprite that shows the
/// frames one after the other, is exported under the bitmap's name, and may
/// call a function on its last frame.
pub fn build_bitmap(
    symbol_index: SymbolIndex,
    properties: &BitmapProperties,
    image: &Result<DecodedImage, String>,
    swf_builder: &mut SwfBuilder,
) -> (r: Result<(), ExportError>)
    requires
        old(swf_builder).wf(),
        *image matches Ok(img) ==> {
            &&& img.argb.len() == img.width * img.height * 4
            &&& img.width * img.height * 4 <= u32::MAX
            &&& properties.animation matches Some(a) ==> {
                &&& a.frame_count > 0
                &&& a.frame_delay < u32::MAX
                &&& 1 < a.frame_count <= img.width ==> a.frame_count * (a.frame_delay + 1)
                    <= u32::MAX
            }
        },
    ensures
        final(swf_builder).wf(),
        *image matches Err(message) ==> r == Err::<(), ExportError>(ExportError::Image(message)),
        r is Err ==> final(swf_builder)@ == old(swf_builder)@,
        *image matches Ok(img) ==> {
            let fc = animation_frames(properties.animation);
            let base = old(swf_builder).character_id_counter as int;
            let old_len = old(swf_builder).tags@.len() as int;
            &&& fc > img.width ==> r == Err::<(), ExportError>(
                ExportError::TooManyFrames(properties.path),
            )
            &&& fc <= img.width && base + bitmap_ids_needed(fc) > u16::MAX ==> r == Err::<
                (),
                ExportError,
            >(ExportError::CharacterIdsExhausted)
            &&& (r is Ok <==> fc <= img.width && base + bitmap_ids_needed(fc) <= u16::MAX)
            &&& r is Ok ==> {
                &&& tags_view(final(swf_builder).tags@) == tags_view(old(swf_builder).tags@)
                    + bitmap_tags(*properties, img, base)
                &&& final(swf_builder).character_id_counter == base + bitmap_ids_needed(fc)
                &&& final(swf_builder).symbol_index_to_character_id@ == old(
                    swf_builder,
                ).symbol_index_to_character_id@.insert(
                    symbol_index,
                    (if fc == 1 {
                        base + 1
                    } else {
                        base + 2 * fc
                    }) as u16,
                )
                &&& final(swf_builder).symbol_index_to_tag_index@ == old(
                    swf_builder,
                ).symbol_index_to_tag_index@.insert(
                    symbol_index,
                    (if fc == 1 {
                        old_len
                    } else {
                        old_len + 2 * fc
                    }) as usize,
                )
            }
        },
{
    broadcast use vstd::std_specs::hash::group_hash_axioms;

    let img = match image {
        Ok(img) => img,
        Err(message) => return Err(ExportError::Image(message.clone())),
    };
    let frame_count: u32 = match &properties.animation {
        None => 1,
        Some(animation) => animation.frame_count,
    };
    let frames_per_animation_frame: u32 = match &properties.animation {
        None => 1,
        Some(animation) => animation.frame_delay + 1,
    };
    if frame_count > img.width {
        return Err(ExportError::TooManyFrames(properties.path.clone()));
    }
    let ids_needed: u64 = if frame_count > 1 {
        2 * (frame_count as u64) + 1
    } else {
        2
    };
    if swf_builder.character_id_counter as u64 + ids_needed > u16::MAX as u64 {
        return Err(ExportError::CharacterIdsExhausted);
    }
    proof {
        lemma_frame_width(img.width, frame_count);
    }
    let frame_width = img.width / frame_count;
    let frame_height = img.height;
    let ghost base = swf_builder.character_id_counter as int;
    let ghost old_len = swf_builder.tags@.len() as int;
    let ghost old_tags = tags_view(swf_builder.tags@);
    let ghost fc = frame_count as int;
    let mut frame_nr: u32 = 0;
    while frame_nr < frame_count
        invariant
            swf_builder.wf(),
            *image == Ok::<DecodedImage, String>(*img),
            base == old(swf_builder).character_id_counter,
            old_len == old(swf_builder).tags@.len(),
            old_tags == tags_view(old(swf_builder).tags@),
            frame_nr <= frame_count,
            fc == frame_count,
            frame_count == animation_frames(properties.animation),
            0 < frame_count <= img.width,
            frame_width == img.width / frame_count,
            frame_width >= 1,
            frame_height == img.height,
            img.argb.len() == img.width * img.height * 4,
            img.width * img.height * 4 <= u32::MAX,
            swf_builder.character_id_counter == base + 2 * frame_nr,
            base + bitmap_ids_needed(fc) <= u16::MAX,
            swf_builder.tags@.len() == old_len + 2 * frame_nr,
            tags_view(swf_builder.tags@) == old_tags + frames_tags(
                *img,
                fc,
                frame_width as int,
                base,
                frame_nr as int,
            ),
            swf_builder.symbol_index_to_character_id@ == if frame_count == 1 && frame_nr == 1 {
                old(swf_builder).symbol_index_to_character_id@.insert(
                    symbol_index,
                    (base + 1) as u16,
                )
            } else {
                old(swf_builder).symbol_index_to_character_id@
            },
            swf_builder.symbol_index_to_tag_index@ == if frame_count == 1 && frame_nr == 1 {
                old(swf_builder).symbol_index_to_tag_index@.insert(symbol_index, old_len as usize)
            } else {
                old(swf_builder).symbol_index_to_tag_index@
            },
        decreases frame_count - frame_nr,
    {
        proof {
            lemma_frame_fits(img.width, frame_count, frame_nr);
        }
        let compressed_result = if frame_count == 1 {
            compress_best(img.argb.as_slice())
        } else {
            let frame_data = frame_data(&img.argb, img.width, img.height, frame_width, frame_nr);
            compress_best(frame_data.as_slice())
        };
        let mut compressed_image_data = match compressed_result {
            Ok(data) => data,
            Err(_) => {
                assert(false);
                Vec::new()
            },
        };
        pad_compressed(&mut compressed_image_data);
        let bitmap_id = match swf_builder.next_character_id() {
            Ok(id) => id,
            Err(e) => {
                assert(false);
                return Err(e);
            },
        };
        let shape_id = match swf_builder.next_character_id() {
            Ok(id) => id,
            Err(e) => {
                assert(false);
                return Err(e);
            },
        };
        if frame_count == 1 {
            swf_builder.symbol_index_to_character_id.insert(symbol_index, shape_id);
            swf_builder.symbol_index_to_tag_index.insert(symbol_index, swf_builder.tags.len());
        }
        let ghost before = tags_view(swf_builder.tags@);
        swf_builder.tags.push(
            ExportTag::DefineBitsLossless {
                id: bitmap_id,
                width: frame_width as u16,
                height: frame_height as u16,
                data: compressed_image_data,
            },
        );
        swf_builder.tags.push(
            ExportTag::DefineBitmapShape {
                id: shape_id,
                bitmap_id,
                width: frame_width,
                height: frame_height,
            },
        );
        proof {
            assert(tags_view(swf_builder.tags@) =~= before + seq![
                ExportTagView::DefineBitsLossless {
                    id: bitmap_id,
                    width: frame_width as u16,
                    height: frame_height as u16,
                    data: padded(
                        zlib_compressed(frame_source(*img, fc, frame_width as int, frame_nr as int)),
                    ),
                },
                ExportTagView::DefineBitmapShape {
                    id: shape_id,
                    bitmap_id,
                    width: frame_width,
                    height: frame_height,
                },
            ]);
        }
        frame_nr = frame_nr + 1;
    }
    if frame_count > 1 {
        let movieclip_id = match swf_builder.next_character_id() {
            Ok(id) => id,
            Err(e) => {
                assert(false);
                return Err(e);
            },
        };
        swf_builder.symbol_index_to_character_id.insert(symbol_index, movieclip_id);
        swf_builder.symbol_index_to_tag_index.insert(symbol_index, swf_builder.tags.len());
        let tags = animation_sprite(
            movieclip_id - 2 * (frame_count as u16),
            frame_count,
            frames_per_animation_frame,
            frame_width,
            frame_height,
        );
        let num_frames = (frame_count * frames_per_animation_frame) as u16;
        let end_action: Option<String> = match &properties.animation {
            Some(animation) => {
                if animation.end_action.as_str().is_empty() {
                    None
                } else {
                    Some(animation.end_action.clone())
                }
            },
            None => None,
        };
        let ghost sprite_view = sprite_tags_view(tags@);
        let swf_builder_tag = match end_action {
            Some(action_str) => ExportTag::DefineSpriteWithEndAction {
                id: movieclip_id,
                num_frames,
                tags,
                end_action: action_str,
            },
            None => ExportTag::DefineSprite { id: movieclip_id, num_frames, tags },
        };
        let ghost before = tags_view(swf_builder.tags@);
        swf_builder.tags.push(swf_builder_tag);
        // every animation is exported, so that it can be attached from code
        swf_builder.tags.push(
            ExportTag::ExportAssets { id: movieclip_id, name: properties.name.clone() },
        );
        proof {
            assert(tags_view(swf_builder.tags@) =~= before + seq![
                swf_builder_tag@,
                ExportTagView::ExportAssets { id: movieclip_id, name: properties.name },
            ]);
        }
    }
    proof {
        assert(tags_view(swf_builder.tags@) =~= old_tags + bitmap_tags(*properties, *img, base));
    }
    Ok(())
}

/// The timeline of a sprite tag; empty for other tags.
pub open spec fn sprite_timeline(t: ExportTagView) -> Seq<SpriteTagView> {
    match t {
        ExportTagView::DefineSprite { tags, .. } => tags,
        ExportTagView::DefineSpriteWithEndAction { tags, .. } => tags,
        _ => Seq::empty(),
    }
}

proof fn lemma_frames_tags_shapes(img: DecodedImage, fc: int, fw: int, base: int, k: int)
    requires
        0 <= k,
    ensures
        frames_tags(img, fc, fw, base, k).len() == 2 * k,
        forall|j: int|
            0 <= j < k ==> {
                let t = #[trigger] frames_tags(img, fc, fw, base, k)[2 * j + 1];
                &&& t is DefineBitmapShape
                &&& t->DefineBitmapShape_id == (base + 2 * j + 1) as u16
                &&& t->DefineBitmapShape_width == fw as u32
                &&& t->DefineBitmapShape_height == img.height
            },
    decreases k,
{
    if k > 0 {
        lemma_frames_tags_shapes(img, fc, fw, base, k - 1);
        let prev = frames_tags(img, fc, fw, base, k - 1);
        let cur = frames_tags(img, fc, fw, base, k);
        assert forall|j: int| 0 <= j < k implies {
            let t = #[trigger] cur[2 * j + 1];
            &&& t is DefineBitmapShape
            &&& t->DefineBitmapShape_id == (base + 2 * j + 1) as u16
            &&& t->DefineBitmapShape_width == fw as u32
            &&& t->DefineBitmapShape_height == img.height
        } by {
            if j < k - 1 {
                assert(cur[2 * j + 1] == prev[2 * j + 1]);
            }
        }
    }
}

proof fn lemma_sprite_placements(base: int, p: int, fw: u32, fh: u32, k: int)
    requires
        0 <= k,
        p >= 1,
    ensures
        animation_sprite_tags(base, p, fw, fh, k).len() == k * (p + 1),
        forall|j: int|
            0 <= j < k ==> {
                let t = #[trigger] animation_sprite_tags(base, p, fw, fh, k)[j * (p + 1)];
                &&& t is PlaceObject
                &&& t->PlaceObject_0.character_id == (base + 2 * j + 1) as u16
                &&& t->PlaceObject_0.depth == 1
                &&& t->PlaceObject_0.replace == (j > 0)
                &&& t->PlaceObject_0.placement == Placement::Centered(fw, fh)
            },
    decreases k,
{
    if k > 0 {
        lemma_sprite_placements(base, p, fw, fh, k - 1);
        let prev = animation_sprite_tags(base, p, fw, fh, k - 1);
        let cur = animation_sprite_tags(base, p, fw, fh, k);
        assert((k - 1) * (p + 1) + 1 + p == k * (p + 1)) by (nonlinear_arith);
        assert(cur.len() == prev.len() + 1 + p);
        assert forall|j: int| 0 <= j < k implies {
            let t = #[trigger] cur[j * (p + 1)];
            &&& t is PlaceObject
            &&& t->PlaceObject_0.character_id == (base + 2 * j + 1) as u16
            &&& t->PlaceObject_0.depth == 1
            &&& t->PlaceObject_0.replace == (j > 0)
            &&& t->PlaceObject_0.placement == Placement::Centered(fw, fh)
        } by {
            if j < k - 1 {
                assert(j * (p + 1) + (p + 1) <= (k - 1) * (p + 1)) by (nonlinear_arith)
                    requires
                        j < k - 1,
                        p >= 1,
                ;
                assert(0 <= j * (p + 1)) by (nonlinear_arith)
                    requires
                        0 <= j,
                        p >= 1,
                ;
                assert(cur[j * (p + 1)] == prev[j * (p + 1)]);
            } else {
                assert(j * (p + 1) == (k - 1) * (p + 1));
            }
        }
    } else {
        assert(0 * (p + 1) == 0);
    }
}

/// An animation's sprite shows its frames one after the other: the
/// placement that starts frame `k` of the animation (after `k` frames of
/// as many movie frames each) places the rectangle made for frame `k`, so
/// the sprite places a different rectangle for each frame, in their order,
/// on one depth (the first placing, the others replacing), centered by that
/// rectangle's own width and height.
pub proof fn lemma_animation_shows_each_frame(
    properties: BitmapProperties,
    img: DecodedImage,
    base: int,
)
    requires
        animation_frames(properties.animation) > 1,
        frames_per_image(properties.animation) >= 1,
        0 <= base,
        base + 2 * animation_frames(properties.animation) <= u16::MAX,
    ensures
        ({
            let fc = animation_frames(properties.animation);
            let p = frames_per_image(properties.animation);
            let tags = bitmap_tags(properties, img, base);
            let sprite = sprite_timeline(tags[2 * fc]);
            &&& tags.len() == 2 * fc + 2
            &&& forall|k: int|
                0 <= k < fc ==> {
                    &&& #[trigger] tags[2 * k + 1] is DefineBitmapShape
                    &&& sprite[k * (p + 1)] is PlaceObject
                    &&& sprite[k * (p + 1)]->PlaceObject_0.character_id
                        == tags[2 * k + 1]->DefineBitmapShape_id
                    &&& sprite[k * (p + 1)]->PlaceObject_0.depth == 1
                    &&& sprite[k * (p + 1)]->PlaceObject_0.replace == (k > 0)
                    &&& sprite[k * (p + 1)]->PlaceObject_0.placement == Placement::Centered(
                        tags[2 * k + 1]->DefineBitmapShape_width,
                        tags[2 * k + 1]->DefineBitmapShape_height,
                    )
                }
            &&& forall|k1: int, k2: int|
                0 <= k1 < k2 < fc ==> #[trigger] sprite[k1 * (p + 1)]->PlaceObject_0.character_id
                    != #[trigger] sprite[k2 * (p + 1)]->PlaceObject_0.character_id
        }),
{
    let fc = animation_frames(properties.animation);
    let p = frames_per_image(properties.animation);
    let fw = img.width / (fc as u32);
    let tags = bitmap_tags(properties, img, base);
    let frames = frames_tags(img, fc, fw as int, base, fc);
    let st = animation_sprite_tags(base, p, fw, img.height, fc);
    lemma_frames_tags_shapes(img, fc, fw as int, base, fc);
    lemma_sprite_placements(base, p, fw, img.height, fc);
    assert(tags[2 * fc] is DefineSprite || tags[2 * fc] is DefineSpriteWithEndAction);
    assert(sprite_timeline(tags[2 * fc]) == st);
    assert forall|k: int| 0 <= k < fc implies {
        &&& #[trigger] tags[2 * k + 1] is DefineBitmapShape
        &&& st[k * (p + 1)] is PlaceObject
        &&& st[k * (p + 1)]->PlaceObject_0.character_id == tags[2 * k + 1]->DefineBitmapShape_id
        &&& st[k * (p + 1)]->PlaceObject_0.depth == 1
        &&& st[k * (p + 1)]->PlaceObject_0.replace == (k > 0)
        &&& st[k * (p + 1)]->PlaceObject_0.placement == Placement::Centered(
            tags[2 * k + 1]->DefineBitmapShape_width,
            tags[2 * k + 1]->DefineBitmapShape_height,
        )
    } by {
        assert(tags[2 * k + 1] == frames[2 * k + 1]);
    }
    assert forall|k1: int, k2: int|
        0 <= k1 < k2 < fc implies #[trigger] st[k1 * (p + 1)]->PlaceObject_0.character_id
        != #[trigger] st[k2 * (p + 1)]->PlaceObject_0.character_id by {
        assert(st[k1 * (p + 1)]->PlaceObject_0.character_id == (base + 2 * k1 + 1) as u16);
        assert(st[k2 * (p + 1)]->PlaceObject_0.character_id == (base + 2 * k2 + 1) as u16);
    }
}

} // verus!
