//! Textures: decoded images, sampled by pixel.

use vstd::prelude::*;
use image::{DynamicImage, GenericImageView, ImageError, ImageFormat};

verus! {

/// `image::DynamicImage`, a decoded image, carried as an opaque value.
#[verifier::external_type_specification]
#[verifier::external_body]
pub struct ExDynamicImage(DynamicImage);

/// `image::ImageFormat`, the name of a file format, carried as an opaque
/// value.
#[verifier::external_type_specification]
#[verifier::external_body]
pub struct ExImageFormat(ImageFormat);

/// `image::ImageError`, carried as an opaque value and never looked into.
#[verifier::external_type_specification]
#[verifier::external_body]
pub struct ExImageError(ImageError);

/// The image format that the extension of a file name stands for, if it
/// stands for one: what `ImageFormat::from_path` finds.
pub uninterp spec fn format_of_path(path: Seq<char>) -> Option<ImageFormat>;

/// The image that the bytes of a file hold when read in the given format, if
/// they hold one that the decoder accepts: what
/// `image::load_from_memory_with_format` decodes.
pub uninterp spec fn decoded(bytes: Seq<u8>, format: ImageFormat) -> Option<DynamicImage>;

/// `ImageFormat::from_path`: the format that the extension of the path stands
/// for, or an error where it stands for none.
#[verifier::external_body]
fn format_of(path: &str) -> (format: Result<ImageFormat, ImageError>)
    ensures
        format is Ok <==> format_of_path(path@) is Some,
        format is Ok ==> format_of_path(path@) == Some(format->Ok_0),
{
    ImageFormat::from_path(path)
}

/// `image::load_from_memory_with_format`: the image decoded from the bytes, or
/// the decoder's error.
#[verifier::external_body]
fn decode(bytes: &[u8], format: ImageFormat) -> (image: Result<DynamicImage, ImageError>)
    ensures
        image is Ok <==> decoded(bytes@, format) is Some,
        image is Ok ==> decoded(bytes@, format) == Some(image->Ok_0),
{
    image::load_from_memory_with_format(bytes, format)
}

/// The width of an image in pixels: what `DynamicImage::width` returns.
pub uninterp spec fn image_width(image: DynamicImage) -> nat;

/// The height of an image in pixels: what `DynamicImage::height` returns.
pub uninterp spec fn image_height(image: DynamicImage) -> nat;

/// The pixels of an image by column and row, each as the red, green, blue and
/// alpha bytes that `get_pixel` reports for it.
pub uninterp spec fn image_pixels(image: DynamicImage) -> Map<(int, int), (u8, u8, u8, u8)>;

/// `DynamicImage::width`: the width of the image.
#[verifier::external_body]
fn width_of(image: &DynamicImage) -> (w: u32)
    ensures
        w == image_width(*image),
{
    image.width()
}

/// `DynamicImage::height`: the height of the image.
#[verifier::external_body]
fn height_of(image: &DynamicImage) -> (h: u32)
    ensures
        h == image_height(*image),
{
    image.height()
}

/// `GenericImageView::get_pixel` on a `DynamicImage`: the pixel in column `x`
/// of row `y`, converted to four bytes. It panics outside the image, which the
/// precondition rules out.
#[verifier::external_body]
fn pixel_of(image: &DynamicImage, x: u32, y: u32) -> (p: [u8; 4])
    requires
        x < image_width(*image),
        y < image_height(*image),
    ensures
        (p[0], p[1], p[2], p[3]) == image_pixels(*image)[(x as int, y as int)],
{
    image.get_pixel(x, y).0
}

/// `DynamicImage::clone`: a copy that is the same image.
#[verifier::external_body]
fn copy_of(image: &DynamicImage) -> (copy: DynamicImage)
    ensures
        copy == *image,
{
    image.clone()
}

/// A decoded image with at least one pixel.
#[derive(Debug)]
pub struct Texture {
    image: DynamicImage,
}

impl Texture {
    #[verifier::type_invariant]
    spec fn has_pixels(self) -> bool {
        image_width(self.image) > 0 && image_height(self.image) > 0
    }

    /// The image behind the texture.
    pub closed spec fn image(self) -> DynamicImage {
        self.image
    }

    pub open spec fn spec_width(self) -> nat {
        image_width(self.image())
    }

    pub open spec fn spec_height(self) -> nat {
        image_height(self.image())
    }

    /// The colour of the pixel in column `x` of row `y`, row 0 being the top.
    pub open spec fn texel(self, x: int, y: int) -> (u8, u8, u8) {
        let p = image_pixels(self.image())[(x, y)];
        (p.0, p.1, p.2)
    }

    /// The colour that [`Texture::get_color`] returns: that of the pixel
    /// nearest to the asked one.
    pub open spec fn spec_get_color(self, column: u32, row: u32) -> (u8, u8, u8) {
        let x = if column < self.spec_width() { column as int } else { self.spec_width() - 1 };
        let y = if row < self.spec_height() { row as int } else { self.spec_height() - 1 };
        self.texel(x, y)
    }

    /// The image in a file of the given name and bytes, read in the format
    /// that the name's extension stands for.
    pub open spec fn image_in_file(path: Seq<char>, bytes: Seq<u8>) -> Option<DynamicImage> {
        match format_of_path(path) {
            Some(format) => decoded(bytes, format),
            None => None,
        }
    }

    /// Decodes the texture in a file, given the file's name and its bytes.
    ///
    /// There is no texture where the name's extension stands for no image
    /// format, where the bytes do not decode in that format, and where the
    /// image has no pixels.
    pub fn load(path: &str, bytes: &[u8]) -> (texture: Option<Texture>)
        ensures
            texture is Some <==> Texture::image_in_file(path@, bytes@) is Some && image_width(
                Texture::image_in_file(path@, bytes@)->0,
            ) > 0 && image_height(Texture::image_in_file(path@, bytes@)->0) > 0,
            texture is Some ==> texture->0.image() == Texture::image_in_file(path@, bytes@)->0,
    {
        match format_of(path) {
            Ok(format) => match decode(bytes, format) {
                Ok(image) => Texture::new(image),
                Err(_) => None,
            },
            Err(_) => None,
        }
    }

    /// Makes a texture of an image, unless the image has no pixels.
    pub fn new(image: DynamicImage) -> (texture: Option<Texture>)
        ensures
            texture is Some <==> image_width(image) > 0 && image_height(image) > 0,
            texture is Some ==> texture->0.image() == image,
    {
        if width_of(&image) > 0 && height_of(&image) > 0 {
            Some(Texture { image })
        } else {
            None
        }
    }

    /// The width in pixels.
    pub fn width(&self) -> (w: u32)
        ensures
            w == self.spec_width(),
            w > 0,
    {
        proof {
            use_type_invariant(self);
        }
        width_of(&self.image)
    }

    /// The height in pixels.
    pub fn height(&self) -> (h: u32)
        ensures
            h == self.spec_height(),
            h > 0,
    {
        proof {
            use_type_invariant(self);
        }
        height_of(&self.image)
    }

    /// The colour of the pixel in column `column` of row `row`, counted from
    /// the top left. A column or row beyond the image is taken for the last.
    pub fn get_color(&self, column: u32, row: u32) -> (rgb: [u8; 3])
        ensures
            (rgb[0], rgb[1], rgb[2]) == self.spec_get_color(column, row),
    {
        proof {
            use_type_invariant(self);
        }
        let width: u32 = width_of(&self.image);
        let height: u32 = height_of(&self.image);
        let x: u32 = if column < width { column } else { width - 1 };
        let y: u32 = if row < height { row } else { height - 1 };
        let pixel = pixel_of(&self.image, x, y);
        [pixel[0], pixel[1], pixel[2]]
    }
}

impl Clone for Texture {
    fn clone(&self) -> (copy: Self)
        ensures
            copy == *self,
    {
        proof {
            use_type_invariant(self);
        }
        Texture { image: copy_of(&self.image) }
    }
}

} // verus!
