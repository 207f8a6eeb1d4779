use crate::json::{
    as_array, as_bool, as_text, as_u64, deref_opt, get_array, get_bool, get_member, get_text,
    get_u64, member, Json,
};
use crate::model::{default_theme, placeholder_view, spotify_green, NowPlaying, NowPlayingView, Rgb};
use crate::text::string_views;
use image::{DynamicImage, ImageBuffer, ImageError, Rgb as RgbPixel};
use std::time::Instant;
use vstd::prelude::*;
use vstd::string::*;

verus! {

// ---------------------------------------------------------------- the player's response

/// Whether a response to the "currently playing" request carries a track: every status
/// but 204 (no content, nothing playing) does.
pub fn response_has_track(status: u16) -> (res: bool)
    ensures
        res == (status != 204),
{
    status != 204
}

/// The snapshot for a response without content: nothing is playing.
pub fn nothing_playing(fetched_at: Instant) -> (res: NowPlaying)
    ensures
        res@ == placeholder_view("No track playing"@, spotify_green(), fetched_at),
{
    NowPlaying::placeholder(String::from_str("No track playing"), default_theme(), fetched_at)
}

/// The names of the artists in a JSON array, skipping entries without a string `name`.
pub open spec fn artist_names(artists: Seq<Json>) -> Seq<Seq<char>> {
    artists.filter_map(|a: Json| as_text(member(Some(a), "name"@)))
}

/// The `url` of the first image in a JSON array, if there is one.
pub open spec fn first_image_url(images: Option<Seq<Json>>) -> Option<Seq<char>> {
    match images {
        Some(a) => if a.len() > 0 {
            as_text(member(Some(a[0]), "url"@))
        } else {
            None
        },
        None => None,
    }
}

/// Text, or a fallback where there is none.
pub open spec fn text_or(t: Option<Seq<char>>, fallback: Seq<char>) -> Seq<char> {
    match t {
        Some(s) => s,
        None => fallback,
    }
}

/// A number, or zero where there is none.
pub open spec fn number_or_zero(n: Option<u64>) -> u64 {
    match n {
        Some(v) => v,
        None => 0,
    }
}

/// The snapshot that a "currently playing" response describes: `is_playing` and
/// `progress_ms` from the top level; the title, artists, length and album from `item`;
/// the art from the album's first image. Missing or mistyped fields read as not playing,
/// zero, "Unknown", no artists and no art. The theme is Spotify's green.
pub open spec fn parsed_track(json: Json, at: Instant) -> NowPlayingView {
    let root = Some(json);
    let item = member(root, "item"@);
    let album = member(item, "album"@);
    NowPlayingView {
        title: text_or(as_text(member(item, "name"@)), "Unknown"@),
        artists: match as_array(member(item, "artists"@)) {
            Some(a) => artist_names(a),
            None => seq![],
        },
        album: text_or(as_text(member(album, "name"@)), "Unknown"@),
        progress_ms: number_or_zero(as_u64(member(root, "progress_ms"@))),
        duration_ms: number_or_zero(as_u64(member(item, "duration_ms"@))),
        is_playing: match as_bool(member(root, "is_playing"@)) {
            Some(b) => b,
            None => false,
        },
        album_art_url: first_image_url(as_array(member(album, "images"@))),
        fetched_at: at,
        theme_color: spotify_green(),
    }
}

/// Each field of a parsed snapshot is read from its own place in the response, whatever
/// the others hold: the position is the top-level `progress_ms` where that is a
/// non-negative integer (whether or not the track is playing), the play state is
/// `is_playing` where that is a boolean, the length is the item's `duration_ms`, the
/// title the item's `name`; the snapshot is stamped with the time given and themed in
/// Spotify's green.
pub proof fn lemma_parsed_fields(json: Json, at: Instant)
    ensures
        ({
            let t = parsed_track(json, at);
            let root = Some(json);
            let item = member(root, "item"@);
            &&& as_u64(member(root, "progress_ms"@)) matches Some(p) ==> t.progress_ms == p
            &&& as_u64(member(root, "progress_ms"@)) is None ==> t.progress_ms == 0
            &&& t.is_playing <==> as_bool(member(root, "is_playing"@)) == Some(true)
            &&& as_u64(member(item, "duration_ms"@)) matches Some(d) ==> t.duration_ms == d
            &&& as_u64(member(item, "duration_ms"@)) is None ==> t.duration_ms == 0
            &&& as_text(member(item, "name"@)) matches Some(n) ==> t.title == n
            &&& as_text(member(item, "name"@)) is None ==> t.title == "Unknown"@
            &&& t.fetched_at == at
            &&& t.theme_color == spotify_green()
        }),
{
}

/// A paused track keeps its reported position.
pub proof fn lemma_paused_track_keeps_position(json: Json, at: Instant, p: u64)
    requires
        as_bool(member(Some(json), "is_playing"@)) == Some(false),
        as_u64(member(Some(json), "progress_ms"@)) == Some(p),
    ensures
        !parsed_track(json, at).is_playing,
        parsed_track(json, at).progress_ms == p,
{
}

fn text_or_unknown(t: Option<&str>) -> (res: String)
    ensures
        res@ == text_or(
            match t {
                Some(s) => Some(s@),
                None => None,
            },
            "Unknown"@,
        ),
{
    match t {
        Some(s) => String::from_str(s),
        None => String::from_str("Unknown"),
    }
}

fn collect_artist_names(artists: &Vec<Json>) -> (names: Vec<String>)
    ensures
        string_views(names@) == artist_names(artists@),
{
    let mut names: Vec<String> = Vec::new();
    let mut i: usize = 0;
    while i < artists.len()
        invariant
            i <= artists.len(),
            string_views(names@) == artist_names(artists@.take(i as int)),
        decreases artists.len() - i,
    {
        let ghost before = names@;
        let a = &artists[i];
        let name = get_text(get_member(Some(a), "name"));
        proof {
            let prefix = artists@.take(i + 1);
            assert(prefix.drop_last() =~= artists@.take(i as int));
            assert(prefix.last() == artists@[i as int]);
        }
        match name {
            Some(s) => {
                names.push(String::from_str(s));
                assert(string_views(names@) =~= string_views(before).push(s@));
            },
            None => {},
        }
        i = i + 1;
    }
    assert(artists@.take(artists.len() as int) =~= artists@);
    names
}

/// Reads a "currently playing" response into a snapshot taken at `fetched_at`.
pub fn parse_now_playing(json: &Json, fetched_at: Instant) -> (res: NowPlaying)
    ensures
        res@ == parsed_track(*json, fetched_at),
{
    let root = Some(json);
    let is_playing = match get_bool(get_member(root, "is_playing")) {
        Some(b) => b,
        None => false,
    };
    let progress_ms = match get_u64(get_member(root, "progress_ms")) {
        Some(n) => n,
        None => 0,
    };
    let item = get_member(root, "item");
    let title = text_or_unknown(get_text(get_member(item, "name")));
    let artists = match get_array(get_member(item, "artists")) {
        Some(a) => collect_artist_names(a),
        None => Vec::new(),
    };
    let album_value = get_member(item, "album");
    let album = text_or_unknown(get_text(get_member(album_value, "name")));
    let duration_ms = match get_u64(get_member(item, "duration_ms")) {
        Some(n) => n,
        None => 0,
    };
    let album_art_url = match get_array(get_member(album_value, "images")) {
        Some(images) => {
            if images.len() > 0 {
                match get_text(get_member(Some(&images[0]), "url")) {
                    Some(u) => Some(String::from_str(u)),
                    None => None,
                }
            } else {
                None
            }
        },
        None => None,
    };
    let res = NowPlaying {
        title,
        artists,
        album,
        progress_ms,
        duration_ms,
        is_playing,
        album_art_url,
        fetched_at,
        theme_color: default_theme(),
    };
    assert(string_views(res.artists@) == match as_array(member(deref_opt(item), "artists"@)) {
        Some(a) => artist_names(a),
        None => seq![],
    });
    res
}

// ---------------------------------------------------------------- the album art's color

/// `image::DynamicImage`, carried through as an opaque decoded image.
#[verifier::external_type_specification]
#[verifier::external_body]
pub struct ExDynamicImage(DynamicImage);

/// `image::ImageError`, carried through as an opaque decoding failure.
#[verifier::external_type_specification]
#[verifier::external_body]
pub struct ExImageError(ImageError);

/// An `image::ImageBuffer` of 8-bit RGB pixels, held opaque. The buffer type's pixel
/// parameter is bound by the `image` crate's `Pixel` trait, so it is kept in a field here
/// rather than declared.
#[verifier::external_body]
pub struct RgbPixels {
    pixels: ImageBuffer<RgbPixel<u8>, Vec<u8>>,
}

/// How wide a decoded image's channels are (and, for 8-bit red, green and blue without
/// alpha, that layout).
#[derive(Debug, Clone, Copy, PartialEq, Eq, Structural)]
pub enum ChannelDepth {
    /// 8-bit red, green and blue channels, without alpha.
    EightRgb,
    /// Other layouts of 8-bit integer channels (gray, gray with alpha, RGBA).
    Eight,
    /// 16-bit integer channels.
    Sixteen,
    /// 32-bit floating-point channels.
    Float,
    /// A color type this version of `image` does not list.
    Unknown,
}

/// The most pixels of an image that the one-pixel thumbnail can average whatever their
/// values. It sums each of four channels over the whole image in a `u32` for 8-bit and
/// 16-bit channels, a missing alpha channel counting at its full value, then adds half
/// the pixel count to round; it counts the pixels in a `u32`. So with channels whose
/// largest value is `c`, the largest `n` with `c * n + n / 2 <= u32::MAX`.
pub open spec fn max_thumbnail_pixels(depth: ChannelDepth) -> u64 {
    match depth {
        ChannelDepth::EightRgb => 16_810_048,
        ChannelDepth::Eight => 16_810_048,
        ChannelDepth::Sixteen => 65_536,
        ChannelDepth::Float => 4_294_967_295,
        ChannelDepth::Unknown => 0,
    }
}

/// The largest value of one channel, for integer channel widths.
pub open spec fn channel_max(depth: ChannelDepth) -> nat {
    match depth {
        ChannelDepth::EightRgb => 255,
        ChannelDepth::Eight => 255,
        ChannelDepth::Sixteen => 65_535,
        _ => 0,
    }
}

/// For integer channels the pixel limit is exact: at the limit the rounded channel sums
/// fit in a `u32` whatever the pixel values, one pixel more and an image of full-valued
/// pixels overflows them.
pub proof fn lemma_pixel_limit_is_exact(depth: ChannelDepth)
    requires
        depth == ChannelDepth::EightRgb || depth == ChannelDepth::Eight || depth
            == ChannelDepth::Sixteen,
    ensures
        ({
            let c = channel_max(depth);
            let n = max_thumbnail_pixels(depth) as nat;
            &&& c * n + n / 2 <= u32::MAX
            &&& c * (n + 1) + (n + 1) / 2 > u32::MAX
        }),
{
}

fn thumbnail_pixel_limit(depth: ChannelDepth) -> (n: u64)
    ensures
        n == max_thumbnail_pixels(depth),
{
    match depth {
        ChannelDepth::EightRgb => 16_810_048,
        ChannelDepth::Eight => 16_810_048,
        ChannelDepth::Sixteen => 65_536,
        ChannelDepth::Float => 4_294_967_295,
        ChannelDepth::Unknown => 0,
    }
}

/// One channel of a color: red for 0, green for 1, blue for 2.
pub open spec fn channel(c: Rgb, k: int) -> nat {
    if k == 0 {
        c.0 as nat
    } else if k == 1 {
        c.1 as nat
    } else {
        c.2 as nat
    }
}

/// The sum of channel `k` over the first `w` pixels of row `y`.
pub open spec fn row_sum(px: Map<(u32, u32), Rgb>, y: u32, w: nat, k: int) -> nat
    decreases w,
{
    if w == 0 {
        0
    } else {
        row_sum(px, y, (w - 1) as nat, k) + channel(px[((w - 1) as u32, y)], k)
    }
}

/// The sum of channel `k` over the pixels of the first `h` rows, `w` pixels each.
pub open spec fn grid_sum(px: Map<(u32, u32), Rgb>, w: nat, h: nat, k: int) -> nat
    decreases h,
{
    if h == 0 {
        0
    } else {
        grid_sum(px, w, (h - 1) as nat, k) + row_sum(px, (h - 1) as u32, w, k)
    }
}

/// The mean of channel `k` over a `w` by `h` grid of pixels, rounded half up.
pub open spec fn rounded_mean(px: Map<(u32, u32), Rgb>, w: nat, h: nat, k: int) -> nat {
    (grid_sum(px, w, h, k) + (w * h) / 2) / (w * h)
}

/// The average color of a `w` by `h` grid of pixels, each channel rounded half up.
pub open spec fn mean_color(px: Map<(u32, u32), Rgb>, w: nat, h: nat) -> Rgb {
    (
        rounded_mean(px, w, h, 0) as u8,
        rounded_mean(px, w, h, 1) as u8,
        rounded_mean(px, w, h, 2) as u8,
    )
}

/// Whether every pixel of a `w` by `h` grid is `c`.
pub open spec fn uniform(px: Map<(u32, u32), Rgb>, w: nat, h: nat, c: Rgb) -> bool {
    forall|x: u32, y: u32| x < w && y < h ==> #[trigger] px[(x, y)] == c
}

proof fn lemma_uniform_row_sum(px: Map<(u32, u32), Rgb>, y: u32, w: nat, h: nat, c: Rgb, k: int)
    requires
        uniform(px, w, h, c),
        y < h,
        w <= u32::MAX + 1,
    ensures
        row_sum(px, y, w, k) == w * channel(c, k),
    decreases w,
{
    if w > 0 {
        let x = (w - 1) as u32;
        assert(x < w);
        assert(px[(x, y)] == c);
        assert(uniform(px, (w - 1) as nat, h, c));
        lemma_uniform_row_sum(px, y, (w - 1) as nat, h, c, k);
        assert(row_sum(px, y, w, k) == row_sum(px, y, (w - 1) as nat, k) + channel(px[(x, y)], k));
        let ch = channel(c, k);
        assert(w * ch == (w - 1) * ch + ch) by (nonlinear_arith)
            requires
                w > 0,
        ;
    } else {
        let ch = channel(c, k);
        assert(w * ch == 0) by (nonlinear_arith)
            requires
                w == 0,
        ;
    }
}

proof fn lemma_uniform_grid_sum(px: Map<(u32, u32), Rgb>, w: nat, h: nat, c: Rgb, k: int)
    requires
        uniform(px, w, h, c),
        w <= u32::MAX + 1,
        h <= u32::MAX + 1,
    ensures
        grid_sum(px, w, h, k) == h * (w * channel(c, k)),
    decreases h,
{
    if h > 0 {
        assert(uniform(px, w, (h - 1) as nat, c));
        lemma_uniform_grid_sum(px, w, (h - 1) as nat, c, k);
        let y = (h - 1) as u32;
        assert(y < h);
        lemma_uniform_row_sum(px, y, w, h, c, k);
        assert(grid_sum(px, w, h, k) == grid_sum(px, w, (h - 1) as nat, k) + row_sum(px, y, w, k));
        let r = w * channel(c, k);
        assert(h * r == (h - 1) * r + r) by (nonlinear_arith)
            requires
                h > 0,
        ;
    } else {
        let r = w * channel(c, k);
        assert(h * r == 0) by (nonlinear_arith)
            requires
                h == 0,
        ;
    }
}

proof fn lemma_rounded_quotient(n: nat, v: nat)
    requires
        n > 0,
    ensures
        (n * v + n / 2) / n == v,
{
    let r = n / 2;
    assert(r < n);
    assert((n * v + r) / n == v) by (nonlinear_arith)
        requires
            n > 0,
            r < n,
    ;
}

/// The average of a grid whose pixels all have one color is that color.
pub proof fn lemma_mean_of_uniform(px: Map<(u32, u32), Rgb>, w: nat, h: nat, c: Rgb)
    requires
        0 < w <= u32::MAX + 1,
        0 < h <= u32::MAX + 1,
        uniform(px, w, h, c),
    ensures
        mean_color(px, w, h) == c,
{
    assert(w * h > 0) by (nonlinear_arith)
        requires
            w > 0,
            h > 0,
    ;
    let n = w * h;
    assert forall|k: int| 0 <= k < 3 implies rounded_mean(px, w, h, k) == channel(c, k) by {
        lemma_uniform_grid_sum(px, w, h, c, k);
        let ch = channel(c, k);
        assert(h * (w * ch) == (w * h) * ch) by (nonlinear_arith);
        lemma_rounded_quotient(n, channel(c, k));
    }
    assert(rounded_mean(px, w, h, 0) == channel(c, 0));
    assert(rounded_mean(px, w, h, 1) == channel(c, 1));
    assert(rounded_mean(px, w, h, 2) == channel(c, 2));
}

/// Whether an image is 8-bit RGB, not empty, and at most 2^24 pixels wide and high (the
/// sizes at which the thumbnail's window covers every pixel exactly).
pub open spec fn averaged_exactly(img: DynamicImage) -> bool {
    &&& image_depth(img) == ChannelDepth::EightRgb
    &&& 0 < image_size(img).0 <= 16_777_216
    &&& 0 < image_size(img).1 <= 16_777_216
}

/// The image that `image::load_from_memory` decodes from these bytes, if it decodes them.
pub uninterp spec fn decoded_image(bytes: Seq<u8>) -> Option<DynamicImage>;

/// The width and height of a decoded image, in pixels.
pub uninterp spec fn image_size(img: DynamicImage) -> (u32, u32);

/// The channel width of a decoded image's color type.
pub uninterp spec fn image_depth(img: DynamicImage) -> ChannelDepth;

/// The one-pixel thumbnail that `DynamicImage::thumbnail(1, 1)` makes of an image.
pub uninterp spec fn thumbnail_of(img: DynamicImage) -> DynamicImage;

/// The 8-bit RGB buffer that `DynamicImage::to_rgb8` makes of an image.
pub uninterp spec fn rgb8_of(img: DynamicImage) -> RgbPixels;

/// The pixels that can be read from an 8-bit RGB buffer, each by its column and row.
pub uninterp spec fn rgb_pixels(buf: RgbPixels) -> Map<(u32, u32), Rgb>;

/// Calls `image::load_from_memory`, which guesses the format from the bytes and decodes
/// them; what it gives depends on the bytes alone.
#[verifier::external_body]
fn decode_image(bytes: &[u8]) -> (res: Result<DynamicImage, ImageError>)
    ensures
        match res {
            Ok(img) => decoded_image(bytes@) == Some(img),
            Err(_) => decoded_image(bytes@) is None,
        },
{
    image::load_from_memory(bytes)
}

/// Calls `GenericImageView::dimensions` on the image: its width and height.
#[verifier::external_body]
fn image_dimensions(img: &DynamicImage) -> (res: (u32, u32))
    ensures
        res == image_size(*img),
{
    image::GenericImageView::dimensions(img)
}

/// Calls `DynamicImage::color` and tells its color types apart by channel width.
#[verifier::external_body]
fn color_depth(img: &DynamicImage) -> (res: ChannelDepth)
    ensures
        res == image_depth(*img),
{
    match img.color() {
        image::ColorType::L8 => ChannelDepth::Eight,
        image::ColorType::La8 => ChannelDepth::Eight,
        image::ColorType::Rgb8 => ChannelDepth::EightRgb,
        image::ColorType::Rgba8 => ChannelDepth::Eight,
        image::ColorType::L16 => ChannelDepth::Sixteen,
        image::ColorType::La16 => ChannelDepth::Sixteen,
        image::ColorType::Rgb16 => ChannelDepth::Sixteen,
        image::ColorType::Rgba16 => ChannelDepth::Sixteen,
        image::ColorType::Rgb32F => ChannelDepth::Float,
        image::ColorType::Rgba32F => ChannelDepth::Float,
        _ => ChannelDepth::Unknown,
    }
}

/// Calls `DynamicImage::thumbnail`, asked here only for one pixel and only of images whose
/// channel sums fit the crate's accumulator (larger sizes can need allocations that depend
/// on the image; larger images overflow the sums). Asked for a width and height of one, it
/// returns an image one pixel wide and high, whatever the size of the original. For an
/// 8-bit RGB image up to 2^24 pixels wide and high, that pixel sums each channel over the
/// whole image, adds half the pixel count and divides by it: the average color, rounded;
/// converting the 8-bit RGB thumbnail with `to_rgb8` copies it as it is.
#[verifier::external_body]
fn thumbnail(img: &DynamicImage, width: u32, height: u32) -> (res: DynamicImage)
    requires
        width == 1,
        height == 1,
        image_size(*img).0 * image_size(*img).1 <= max_thumbnail_pixels(image_depth(*img)),
    ensures
        res == thumbnail_of(*img),
        image_size(res) == (1u32, 1u32),
        averaged_exactly(*img) ==> rgb_pixels(rgb8_of(res)).contains_key((0u32, 0u32))
            && rgb_pixels(rgb8_of(res))[(0u32, 0u32)] == mean_color(
            rgb_pixels(rgb8_of(*img)),
            image_size(*img).0 as nat,
            image_size(*img).1 as nat,
        ),
{
    img.thumbnail(width, height)
}

/// Calls `DynamicImage::to_rgb8`, the image with three 8-bit channels and the same size:
/// a pixel can be read at every column and row within that size. Nothing is stated of
/// places outside it (a buffer may hold more data than its size needs).
#[verifier::external_body]
fn to_rgb8(img: &DynamicImage) -> (res: RgbPixels)
    ensures
        res == rgb8_of(*img),
        forall|x: u32, y: u32|
            #![trigger rgb_pixels(res).contains_key((x, y))]
            (x < image_size(*img).0 && y < image_size(*img).1) ==> rgb_pixels(res).contains_key(
                (x, y),
            ),
{
    RgbPixels { pixels: img.to_rgb8() }
}

/// Calls `ImageBuffer::get_pixel_checked` and takes the pixel's three channels: the pixel
/// at that column and row, or `None` outside the image.
#[verifier::external_body]
fn pixel_at(buf: &RgbPixels, x: u32, y: u32) -> (res: Option<Rgb>)
    ensures
        res == (if rgb_pixels(*buf).contains_key((x, y)) {
            Some(rgb_pixels(*buf)[(x, y)])
        } else {
            None
        }),
{
    buf.pixels.get_pixel_checked(x, y).map(|p| (p.0[0], p.0[1], p.0[2]))
}

/// Whether the one-pixel thumbnail of this image can be computed without overflow,
/// whatever its pixel values.
pub open spec fn thumbnail_fits(img: DynamicImage) -> bool {
    image_size(img).0 * image_size(img).1 <= max_thumbnail_pixels(image_depth(img))
}

/// The color of an album cover: the single pixel, in 8-bit RGB, of the one-pixel
/// thumbnail of the image the bytes decode to; none where they do not decode, or where
/// the image is too large for the thumbnail's channel sums.
pub open spec fn cover_color(bytes: Seq<u8>) -> Option<Rgb> {
    match decoded_image(bytes) {
        Some(img) => if thumbnail_fits(img) {
            Some(rgb_pixels(rgb8_of(thumbnail_of(img)))[(0u32, 0u32)])
        } else {
            None
        },
        None => None,
    }
}

/// Whether the bytes decode to an 8-bit RGB cover, small enough to average exactly, all of
/// whose pixels are `c`.
pub open spec fn uniform_cover(bytes: Seq<u8>, c: Rgb) -> bool {
    match decoded_image(bytes) {
        Some(img) => averaged_exactly(img) && thumbnail_fits(img) && uniform(
            rgb_pixels(rgb8_of(img)),
            image_size(img).0 as nat,
            image_size(img).1 as nat,
            c,
        ),
        None => false,
    }
}

/// The color of an album cover, as the one-pixel thumbnail of the decoded image: for an
/// 8-bit RGB cover, its average color.
pub fn dominant_color(bytes: &[u8]) -> (res: Option<Rgb>)
    ensures
        res == cover_color(bytes@),
        match decoded_image(bytes@) {
            Some(img) => averaged_exactly(img) && thumbnail_fits(img) ==> res == Some(
                mean_color(
                    rgb_pixels(rgb8_of(img)),
                    image_size(img).0 as nat,
                    image_size(img).1 as nat,
                ),
            ),
            None => res is None,
        },
        forall|c: Rgb| #[trigger] uniform_cover(bytes@, c) ==> res == Some(c),
{
    match decode_image(bytes) {
        Ok(img) => {
            let (width, height) = image_dimensions(&img);
            let limit = thumbnail_pixel_limit(color_depth(&img));
            let w: u64 = width as u64;
            let h: u64 = height as u64;
            assert(w * h <= 0xffff_ffffu64 * 0xffff_ffffu64) by (nonlinear_arith)
                requires
                    w <= 0xffff_ffffu64,
                    h <= 0xffff_ffffu64,
            ;
            if w * h <= limit {
                let small = thumbnail(&img, 1, 1);
                let pixels = to_rgb8(&small);
                assert(pixels == rgb8_of(small));
                proof {
                    let px = rgb_pixels(rgb8_of(img));
                    let iw = image_size(img).0 as nat;
                    let ih = image_size(img).1 as nat;
                    assert forall|c: Rgb| averaged_exactly(img) && uniform(px, iw, ih, c) implies
                        mean_color(px, iw, ih) == c by {
                        lemma_mean_of_uniform(px, iw, ih, c);
                    }
                }
                assert(rgb_pixels(pixels).contains_key((0u32, 0u32)));
                pixel_at(&pixels, 0, 0)
            } else {
                None
            }
        },
        Err(_) => None,
    }
}

} // verus!
