//! RGB to CMYK through ICC profiles, with Little CMS doing the colour arithmetic.

use crate::text::join;
use lcms2::{AllowCache, GlobalContext, Profile, Transform};
use vstd::prelude::*;

verus! {

/// What Little CMS says of a profile or a transform that it could not create.
pub const CREATION_MESSAGE: &'static str =
    "Could not create the object.\nThe reason is not known, but it's usually caused by wrong input parameters.";

/// What is said of a file that could be read and is no ICC profile.
pub const NO_PROFILE_MESSAGE: &'static str = "other error";

pub const SRGB_PREFIX: &'static str = "Не удалось загрузить sRGB ICC: ";

pub const CMYK_PREFIX: &'static str = "Не удалось загрузить CMYK ICC: ";

pub const LINK_PREFIX: &'static str = "Ошибка создания transform: ";

/// The context that profiles and transforms are made in when none is named.
#[verifier::external_type_specification]
#[verifier::external_body]
pub struct ExGlobalContext(lcms2::GlobalContext);

/// The mark of a transform that may cache pixels.
#[verifier::external_type_specification]
#[verifier::external_body]
pub struct ExAllowCache(lcms2::AllowCache);

/// An opened ICC profile.
#[verifier::external_type_specification]
#[verifier::external_body]
#[verifier::reject_recursive_types(C)]
pub struct ExProfile<C>(lcms2::Profile<C>);

/// A conversion between two profiles.
#[verifier::external_type_specification]
#[verifier::external_body]
#[verifier::reject_recursive_types(I)]
#[verifier::reject_recursive_types(O)]
#[verifier::reject_recursive_types(C)]
#[verifier::reject_recursive_types(F)]
pub struct ExTransform<I, O, C, F>(lcms2::Transform<I, O, C, F>);

/// The failure that Little CMS reports.
#[verifier::external_type_specification]
#[verifier::external_body]
pub struct ExError(lcms2::Error);

/// The rendering intents of ICC profiles.
#[derive(Clone, Copy, Debug, PartialEq, Eq)]
pub enum Intent {
    Perceptual,
    RelativeColorimetric,
    Saturation,
    AbsoluteColorimetric,
}

/// The ICC data that a profile was opened from.
pub uninterp spec fn profile_data(p: Profile<GlobalContext>) -> Seq<u8>;

/// Whether Little CMS opens `data` as an ICC profile.
pub uninterp spec fn icc_opens(data: Seq<u8>) -> bool;

/// Whether Little CMS makes a transform from 8-bit RGB to 8-bit CMYK out of the profiles
/// in `input` and `output` under `intent`.
pub uninterp spec fn icc_links(input: Seq<u8>, output: Seq<u8>, intent: Intent) -> bool;

/// What a transform was made from: the data of its input profile, the data of its output
/// profile, and the intent.
pub uninterp spec fn transform_source(
    t: Transform<[u8; 3], [u8; 4], GlobalContext, AllowCache>,
) -> (Seq<u8>, Seq<u8>, Intent);

/// Whether `cmyk` is an outcome of sending the pixel `rgb` through the transform that was
/// made from `input`, `output` and `intent`. The colour arithmetic is floating point in C,
/// so two machines may round one pixel differently: the outcomes are named, not one value.
pub uninterp spec fn icc_pixel(
    input: Seq<u8>,
    output: Seq<u8>,
    intent: Intent,
    rgb: Seq<u8>,
    cmyk: Seq<u8>,
) -> bool;

/// `lcms2::Profile::new_icc` opens an ICC profile that lies in memory. Whether it does
/// depends on the bytes alone; it never does on no bytes at all. The profile holds the
/// bytes that it was opened from.
#[verifier::external_body]
fn open_profile(data: &[u8]) -> (r: Result<Profile<GlobalContext>, lcms2::Error>)
    ensures
        r is Ok == icc_opens(data@),
        r matches Ok(p) ==> profile_data(p) == data@,
        data@.len() == 0 ==> r is Err,
{
    Profile::new_icc(data)
}

/// `lcms2::Transform::new` links two profiles into a transform, here one of pixels of
/// three bytes (RGB) to pixels of four bytes (CMYK). Whether it can depends on the data
/// of the profiles and on the intent. The one failure that it reports is that the object
/// could not be created, and the text is that of `lcms2::Error`.
#[verifier::external_body]
fn link_profiles(
    input: &Profile<GlobalContext>,
    output: &Profile<GlobalContext>,
    intent: Intent,
) -> (r: Result<Transform<[u8; 3], [u8; 4], GlobalContext, AllowCache>, String>)
    ensures
        r is Ok == icc_links(profile_data(*input), profile_data(*output), intent),
        r matches Ok(t) ==> transform_source(t) == (
            profile_data(*input),
            profile_data(*output),
            intent,
        ),
        r matches Err(e) ==> e@ == CREATION_MESSAGE@,
{
    let intent = match intent {
        Intent::Perceptual => lcms2::Intent::Perceptual,
        Intent::RelativeColorimetric => lcms2::Intent::RelativeColorimetric,
        Intent::Saturation => lcms2::Intent::Saturation,
        Intent::AbsoluteColorimetric => lcms2::Intent::AbsoluteColorimetric,
    };
    let (rgb, cmyk) = (lcms2::PixelFormat::RGB_8, lcms2::PixelFormat::CMYK_8);
    Transform::new(input, rgb, output, cmyk, intent).map_err(|e| e.to_string())
}

/// `lcms2::Transform::transform_pixels` sends pixels through a transform, here one. What
/// comes out is an outcome of what the transform was made from and of the pixel.
#[verifier::external_body]
fn transform_pixel(
    t: &Transform<[u8; 3], [u8; 4], GlobalContext, AllowCache>,
    rgb: [u8; 3],
) -> (cmyk: [u8; 4])
    ensures
        icc_pixel(
            transform_source(*t).0,
            transform_source(*t).1,
            transform_source(*t).2,
            rgb@,
            cmyk@,
        ),
{
    let mut cmyk = [[0u8; 4]];
    t.transform_pixels(&[rgb], &mut cmyk);
    cmyk[0]
}

/// The intent that colours are converted under.
pub open spec fn intent() -> Intent {
    Intent::RelativeColorimetric
}

/// The ink in percent that a byte of a CMYK pixel stands for, rounded to a whole number:
/// 0 is none and 255 is full.
pub open spec fn percent(v: u8) -> u8 {
    ((200 * v + 255) / 510) as u8
}

/// The outcome of reading a file, with its contents and its error seen as sequences.
pub open spec fn file_view(f: Result<Vec<u8>, String>) -> Result<Seq<u8>, Seq<char>> {
    match f {
        Ok(data) => Ok(data@),
        Err(e) => Err(e@),
    }
}

/// Why the profile in a file cannot be had, where it cannot: the file cannot be read, or it
/// is empty or otherwise no ICC profile.
pub open spec fn load_failure(f: Result<Seq<u8>, Seq<char>>) -> Option<Seq<char>> {
    match f {
        Err(e) => Some(e),
        Ok(data) => if data.len() > 0 && icc_opens(data) {
            None
        } else {
            Some(NO_PROFILE_MESSAGE@)
        },
    }
}

/// Why colours cannot be converted with the profiles in two files, where they cannot.
pub open spec fn conversion_failure(
    srgb: Result<Seq<u8>, Seq<char>>,
    cmyk: Result<Seq<u8>, Seq<char>>,
) -> Option<Seq<char>> {
    match (load_failure(srgb), load_failure(cmyk)) {
        (Some(e), _) => Some(SRGB_PREFIX@ + e),
        (None, Some(e)) => Some(CMYK_PREFIX@ + e),
        (None, None) => if icc_links(srgb->Ok_0, cmyk->Ok_0, intent()) {
            None
        } else {
            Some(LINK_PREFIX@ + CREATION_MESSAGE@)
        },
    }
}

/// A colour as the bytes of an RGB pixel.
pub open spec fn pixel(rgb: (u8, u8, u8)) -> Seq<u8> {
    seq![rgb.0, rgb.1, rgb.2]
}

/// Whether `r` is an outcome of converting a colour with the profiles in two files: the
/// failure where there is one, otherwise an outcome of the transform in percent.
pub open spec fn conversion_outcome(
    rgb: (u8, u8, u8),
    srgb: Result<Seq<u8>, Seq<char>>,
    cmyk: Result<Seq<u8>, Seq<char>>,
    r: Result<(u8, u8, u8, u8), Seq<char>>,
) -> bool {
    match conversion_failure(srgb, cmyk) {
        Some(e) => r == Err::<(u8, u8, u8, u8), Seq<char>>(e),
        None => exists|p: Seq<u8>|
            #[trigger] icc_pixel(srgb->Ok_0, cmyk->Ok_0, intent(), pixel(rgb), p) && p.len() == 4
                && r == Ok::<(u8, u8, u8, u8), Seq<char>>(
                (percent(p[0]), percent(p[1]), percent(p[2]), percent(p[3])),
            ),
    }
}

/// What [`rgb_to_cmyk_icc`] returns, with the message seen as its characters.
pub open spec fn cmyk_view(r: Result<(u8, u8, u8, u8), String>) -> Result<
    (u8, u8, u8, u8),
    Seq<char>,
> {
    match r {
        Ok(cmyk) => Ok(cmyk),
        Err(e) => Err(e@),
    }
}

/// A CMYK pixel in percent.
pub fn pixel_to_percent(p: [u8; 4]) -> (r: (u8, u8, u8, u8))
    ensures
        r == (percent(p@[0]), percent(p@[1]), percent(p@[2]), percent(p@[3])),
{
    (to_percent(p[0]), to_percent(p[1]), to_percent(p[2]), to_percent(p[3]))
}

/// A byte of a CMYK pixel in percent.
pub fn to_percent(v: u8) -> (r: u8)
    ensures
        r == percent(v),
        r <= 100,
{
    ((200 * (v as u32) + 255) / 510) as u8
}

/// Opens the profile in a file that was read, or says why it cannot be had.
fn load_profile(f: &Result<Vec<u8>, String>) -> (r: Result<Profile<GlobalContext>, String>)
    ensures
        r is Err == load_failure(file_view(*f)) is Some,
        r matches Err(e) ==> Some(e@) == load_failure(file_view(*f)),
        r matches Ok(p) ==> file_view(*f) == Ok::<Seq<u8>, Seq<char>>(profile_data(p)),
{
    match f {
        Err(e) => Err(e.clone()),
        Ok(data) => match open_profile(data.as_slice()) {
            Ok(p) => Ok(p),
            Err(_) => Err(NO_PROFILE_MESSAGE.to_string()),
        },
    }
}

/// Converts a colour to CMYK in percent through two ICC profiles, each given as the
/// outcome of reading its file.
pub fn rgb_to_cmyk_icc(
    r: u8,
    g: u8,
    b: u8,
    srgb: &Result<Vec<u8>, String>,
    cmyk: &Result<Vec<u8>, String>,
) -> (res: Result<(u8, u8, u8, u8), String>)
    ensures
        conversion_outcome((r, g, b), file_view(*srgb), file_view(*cmyk), cmyk_view(res)),
        res matches Ok(inks) ==> exists|rgb: Seq<u8>, ink: Seq<u8>|
            #[trigger] icc_pixel(
                srgb->Ok_0@,
                cmyk->Ok_0@,
                Intent::RelativeColorimetric,
                rgb,
                ink,
            ) && rgb == seq![r, g, b] && ink.len() == 4 && inks == (
                percent(ink[0]),
                percent(ink[1]),
                percent(ink[2]),
                percent(ink[3]),
            ),
{
    let input = match load_profile(srgb) {
        Ok(p) => p,
        Err(e) => return Err(join(SRGB_PREFIX, e.as_str())),
    };
    let output = match load_profile(cmyk) {
        Ok(p) => p,
        Err(e) => return Err(join(CMYK_PREFIX, e.as_str())),
    };
    let transform = match link_profiles(&input, &output, Intent::RelativeColorimetric) {
        Ok(t) => t,
        Err(e) => return Err(join(LINK_PREFIX, e.as_str())),
    };
    let rgb = [r, g, b];
    let ink = transform_pixel(&transform, rgb);
    assert(rgb@ == pixel((r, g, b)));
    Ok(pixel_to_percent(ink))
}

} // verus!
