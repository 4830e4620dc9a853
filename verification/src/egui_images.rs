use vstd::prelude::*;
use crate::pixel_buffer::{Color, CoverageImage, RgbaImage};

verus! {

/// `egui::ColorImage`, carried through as an opaque value.
#[verifier::external_type_specification]
#[verifier::external_body]
pub struct ExEguiColor(egui::ColorImage);

/// `egui::FontImage`, carried through as an opaque value.
#[verifier::external_type_specification]
#[verifier::external_body]
pub struct ExEguiFont(egui::FontImage);

/// The width that an `egui::ColorImage` declares.
pub uninterp spec fn egui_color_width(image: egui::ColorImage) -> nat;

/// The height that an `egui::ColorImage` declares.
pub uninterp spec fn egui_color_height(image: egui::ColorImage) -> nat;

/// The texels that an `egui::ColorImage` holds, in stored order, each as its
/// four premultiplied channel bytes.
pub uninterp spec fn egui_color_texels(image: egui::ColorImage) -> Seq<Color>;

/// The width that an `egui::FontImage` declares.
pub uninterp spec fn egui_font_width(image: egui::FontImage) -> nat;

/// The height that an `egui::FontImage` declares.
pub uninterp spec fn egui_font_height(image: egui::FontImage) -> nat;

/// How many coverage values an `egui::FontImage` holds.
pub uninterp spec fn egui_font_texel_count(image: egui::FontImage) -> nat;

/// `egui::ColorImage::width`: the first entry of the image's declared size.
#[verifier::external_body]
fn color_width(image: &egui::ColorImage) -> (width: usize)
    ensures
        width == egui_color_width(*image),
{
    image.width()
}

/// `egui::ColorImage::height`: the second entry of the image's declared size.
#[verifier::external_body]
fn color_height(image: &egui::ColorImage) -> (height: usize)
    ensures
        height == egui_color_height(*image),
{
    image.height()
}

/// The `pixels` of an `egui::ColorImage`, each turned into its channel bytes
/// by `egui::Color32::to_array`, which gives red, green, blue, alpha.
#[verifier::external_body]
fn color_texels(image: &egui::ColorImage) -> (texels: Vec<Color>)
    ensures
        texels@ == egui_color_texels(*image),
{
    image.pixels.iter().map(|pixel| pixel.to_array()).map(|[r, g, b, a]| Color { r, g, b, a }).collect()
}

/// `egui::FontImage::width`: the first entry of the atlas's declared size.
#[verifier::external_body]
fn font_width(image: &egui::FontImage) -> (width: usize)
    ensures
        width == egui_font_width(*image),
{
    image.width()
}

/// `egui::FontImage::height`: the second entry of the atlas's declared size.
#[verifier::external_body]
fn font_height(image: &egui::FontImage) -> (height: usize)
    ensures
        height == egui_font_height(*image),
{
    image.height()
}

/// `egui::FontImage::srgba_pixels` with the default gamma, keeping the alpha
/// of each texel it yields. It yields one texel per stored coverage value;
/// the value of each comes out of floating-point arithmetic, so only their
/// number is claimed.
#[verifier::external_body]
fn font_coverage(image: &egui::FontImage) -> (coverage: Vec<u8>)
    ensures
        coverage@.len() == egui_font_texel_count(*image),
{
    image.srgba_pixels(None).map(|texel| texel.a()).collect()
}

/// Reads a colour image of the GUI library: its declared size and its
/// texels, as they are. Whether the texels fill the size is for the reader
/// of the result to test.
pub fn color_image_from_egui(image: &egui::ColorImage) -> (converted: RgbaImage)
    ensures
        converted.width == egui_color_width(*image),
        converted.height == egui_color_height(*image),
        converted.pixels@ == egui_color_texels(*image),
{
    RgbaImage { width: color_width(image), height: color_height(image), pixels: color_texels(image) }
}

/// Reads a glyph atlas of the GUI library: its declared size and one
/// quantised coverage value for each value it holds. Whether the values
/// fill the size is for the reader of the result to test.
pub fn font_image_from_egui(image: &egui::FontImage) -> (converted: CoverageImage)
    ensures
        converted.width == egui_font_width(*image),
        converted.height == egui_font_height(*image),
        converted.coverage@.len() == egui_font_texel_count(*image),
{
    CoverageImage {
        width: font_width(image),
        height: font_height(image),
        coverage: font_coverage(image),
    }
}

} // verus!
