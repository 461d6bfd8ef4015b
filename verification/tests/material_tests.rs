use image::{DynamicImage, GrayImage, ImageOutputFormat, RgbImage, RgbaImage};
use minecraft_diorama::material::{
    create_coal_ore_material, create_diamond_ore_material, create_dirt_material,
    create_grass_material, create_iron_ore_material, create_leaves_material,
    create_stone_material, create_water_material, create_wood_material, Material, BITS_0_2,
    BITS_0_3, BITS_0_7, BITS_1_33, COAL_ORE_TEXTURE, DIAMOND_ORE_TEXTURE, DIRT_TEXTURE,
    GRASS_SIDE_TEXTURE, GRASS_TOP_TEXTURE, IRON_ORE_TEXTURE, LEAVES_TEXTURE, ONE_BITS,
    STONE_TEXTURE, WATER_TEXTURE, WOOD_TEXTURE,
};
use minecraft_diorama::scalar::Scalar;
use minecraft_diorama::texture::Texture;

/// A texture of two columns and three rows whose pixel in column `x` of row
/// `y` is `(10 * x + y, 100 + x, 200 + y)`.
fn gradient() -> Texture {
    let mut bytes = Vec::new();
    for y in 0..3u8 {
        for x in 0..2u8 {
            bytes.push(10 * x + y);
            bytes.push(100 + x);
            bytes.push(200 + y);
        }
    }
    Texture::new(DynamicImage::ImageRgb8(RgbImage::from_raw(2, 3, bytes).unwrap())).unwrap()
}

fn plain(r: u8, g: u8, b: u8) -> Texture {
    Texture::new(DynamicImage::ImageRgb8(RgbImage::from_raw(1, 1, vec![r, g, b]).unwrap())).unwrap()
}

/// The bytes of a PNG file of two columns and three rows, with the pixels of
/// `gradient`.
fn gradient_png() -> Vec<u8> {
    let mut bytes = Vec::new();
    for y in 0..3u8 {
        for x in 0..2u8 {
            bytes.extend([10 * x + y, 100 + x, 200 + y]);
        }
    }
    let image = DynamicImage::ImageRgb8(RgbImage::from_raw(2, 3, bytes).unwrap());
    let mut file = std::io::Cursor::new(Vec::new());
    image.write_to(&mut file, ImageOutputFormat::Png).unwrap();
    file.into_inner()
}

fn bits(x: f64) -> u64 {
    x.to_bits()
}

#[test]
fn texture_is_decoded_from_the_bytes_of_its_file() {
    let texture = Texture::load("textures/stone.png", &gradient_png()).unwrap();
    assert_eq!(texture.width(), 2);
    assert_eq!(texture.height(), 3);
    for y in 0..3u32 {
        for x in 0..2u32 {
            assert_eq!(texture.get_color(x, y), gradient().get_color(x, y));
        }
    }
    assert!(Texture::load("STONE.PNG", &gradient_png()).is_some());
}

#[test]
fn file_that_does_not_decode_is_no_texture() {
    let png = gradient_png();
    assert!(Texture::load("textures/stone.png", &[]).is_none());
    assert!(Texture::load("textures/stone.png", b"not an image").is_none());
    assert!(Texture::load("textures/stone.png", &png[..png.len() / 2]).is_none());
}

#[test]
fn file_name_decides_the_format() {
    let png = gradient_png();
    assert!(Texture::load("textures/stone", &png).is_none());
    assert!(Texture::load("textures/stone.txt", &png).is_none());
    assert!(Texture::load("textures/stone.jpg", &png).is_none());
    assert!(Texture::load("", &png).is_none());
}

#[test]
fn texture_knows_its_size() {
    let texture = gradient();
    assert_eq!(texture.width(), 2);
    assert_eq!(texture.height(), 3);
}

#[test]
fn texture_returns_the_pixel_asked_for() {
    let texture = gradient();
    for y in 0..3u32 {
        for x in 0..2u32 {
            assert_eq!(texture.get_color(x, y), [(10 * x + y) as u8, 100 + x as u8, 200 + y as u8]);
        }
    }
}

#[test]
fn texture_takes_the_last_pixel_beyond_the_edge() {
    let texture = gradient();
    assert_eq!(texture.get_color(2, 0), [10, 101, 200]);
    assert_eq!(texture.get_color(0, 3), [2, 100, 202]);
    assert_eq!(texture.get_color(7, 9), [12, 101, 202]);
    assert_eq!(texture.get_color(u32::MAX, u32::MAX), [12, 101, 202]);
}

#[test]
fn texture_drops_the_alpha_channel() {
    let image = RgbaImage::from_raw(1, 1, vec![1, 2, 3, 4]).unwrap();
    let texture = Texture::new(DynamicImage::ImageRgba8(image)).unwrap();
    assert_eq!(texture.get_color(0, 0), [1, 2, 3]);
}

#[test]
fn texture_of_a_grey_image_is_grey() {
    let image = GrayImage::from_raw(2, 1, vec![7, 250]).unwrap();
    let texture = Texture::new(DynamicImage::ImageLuma8(image)).unwrap();
    assert_eq!(texture.get_color(0, 0), [7, 7, 7]);
    assert_eq!(texture.get_color(1, 0), [250, 250, 250]);
}

#[test]
fn image_without_pixels_is_no_texture() {
    assert!(Texture::new(DynamicImage::new_rgb8(0, 0)).is_none());
    assert!(Texture::new(DynamicImage::new_rgb8(4, 0)).is_none());
    assert!(Texture::new(DynamicImage::new_rgb8(0, 4)).is_none());
    assert!(Texture::new(DynamicImage::new_rgb8(1, 1)).is_some());
}

#[test]
fn texture_clone_is_the_same_texture() {
    let texture = gradient();
    let copy = texture.clone();
    assert_eq!(copy.width(), 2);
    assert_eq!(copy.height(), 3);
    for y in 0..3u32 {
        for x in 0..2u32 {
            assert_eq!(copy.get_color(x, y), texture.get_color(x, y));
        }
    }
}

#[test]
fn new_material_is_matt_and_opaque() {
    let m = Material::new([1, 2, 3]);
    assert!(m.textures.iter().all(|t| t.is_none()));
    assert_eq!(m.reflectivity.to_bits(), bits(0.0));
    assert_eq!(m.transparency.to_bits(), bits(0.0));
    assert_eq!(m.refractive_index.to_bits(), bits(1.0));
    assert_eq!(m.base_color, [1, 2, 3]);
}

#[test]
fn untextured_face_shows_the_base_color() {
    let m = Material::new([9, 8, 7]);
    for face in 0..6 {
        assert_eq!(m.get_color(face, 0, 0), [9, 8, 7]);
        assert_eq!(m.get_color(face, 5, 11), [9, 8, 7]);
        assert!(m.texture(face).is_none());
    }
}

#[test]
fn textured_face_shows_its_texture() {
    let m = Material::new([9, 8, 7]).with_texture(3, Some(gradient()));
    assert_eq!(m.get_color(3, 1, 2), [12, 101, 202]);
    assert_eq!(m.get_color(3, 0, 0), [0, 100, 200]);
    assert_eq!(m.get_color(2, 1, 2), [9, 8, 7]);
    assert_eq!(m.texture(3).unwrap().width(), 2);
    assert!(m.texture(2).is_none());
}

#[test]
fn face_that_does_not_exist_shows_the_base_color() {
    let m = Material::new([9, 8, 7]).with_all_textures(Some(gradient()));
    assert_eq!(m.get_color(6, 0, 0), [9, 8, 7]);
    assert_eq!(m.get_color(usize::MAX, 0, 0), [9, 8, 7]);
    assert!(m.texture(6).is_none());
}

#[test]
fn with_texture_on_no_face_changes_nothing() {
    let m = Material::new([9, 8, 7]).with_texture(6, Some(gradient()));
    assert!(m.textures.iter().all(|t| t.is_none()));
    assert_eq!(m.base_color, [9, 8, 7]);
}

#[test]
fn with_texture_none_unbinds_a_face() {
    let m = Material::new([9, 8, 7]).with_all_textures(Some(gradient())).with_texture(1, None);
    assert_eq!(m.get_color(1, 0, 0), [9, 8, 7]);
    assert_eq!(m.get_color(0, 0, 0), [0, 100, 200]);
}

#[test]
fn with_all_textures_binds_every_face() {
    let m = Material::new([9, 8, 7]).with_all_textures(Some(gradient()));
    for face in 0..6 {
        assert_eq!(m.get_color(face, 1, 1), [11, 101, 201]);
    }
    let m = m.with_all_textures(None);
    for face in 0..6 {
        assert_eq!(m.get_color(face, 1, 1), [9, 8, 7]);
    }
}

#[test]
fn with_reflectivity_and_transparency_set_their_fields_only() {
    let m = Material::new([9, 8, 7])
        .with_reflectivity(Scalar::from_bits(bits(0.25)))
        .with_transparency(Scalar::from_bits(bits(0.75)), Scalar::from_bits(bits(1.5)));
    assert_eq!(m.reflectivity.to_bits(), bits(0.25));
    assert_eq!(m.transparency.to_bits(), bits(0.75));
    assert_eq!(m.refractive_index.to_bits(), bits(1.5));
    assert_eq!(m.base_color, [9, 8, 7]);
    assert!(m.textures.iter().all(|t| t.is_none()));
}

#[test]
fn material_clone_is_the_same_material() {
    let m = create_water_material(Some(gradient())).with_texture(4, None);
    let copy = m.clone();
    assert_eq!(copy.base_color, m.base_color);
    assert_eq!(copy.reflectivity, m.reflectivity);
    assert_eq!(copy.transparency, m.transparency);
    assert_eq!(copy.refractive_index, m.refractive_index);
    for face in 0..6 {
        assert_eq!(copy.get_color(face, 1, 2), m.get_color(face, 1, 2));
        assert_eq!(copy.texture(face).is_some(), face != 4);
    }
}

#[test]
fn bit_patterns_are_those_of_the_doubles() {
    assert_eq!(ONE_BITS, bits(1.0));
    assert_eq!(BITS_0_2, bits(0.2));
    assert_eq!(BITS_0_3, bits(0.3));
    assert_eq!(BITS_0_7, bits(0.7));
    assert_eq!(BITS_1_33, bits(1.33));
}

#[test]
fn texture_files_have_their_names() {
    assert_eq!(STONE_TEXTURE, "textures/stone.png");
    assert_eq!(DIRT_TEXTURE, "textures/dirt.png");
    assert_eq!(WOOD_TEXTURE, "textures/wood.png");
    assert_eq!(LEAVES_TEXTURE, "textures/leaves.png");
    assert_eq!(WATER_TEXTURE, "textures/water.png");
    assert_eq!(GRASS_TOP_TEXTURE, "textures/grass_top.png");
    assert_eq!(GRASS_SIDE_TEXTURE, "textures/grass_side.png");
    assert_eq!(COAL_ORE_TEXTURE, "textures/coal_ore.png");
    assert_eq!(IRON_ORE_TEXTURE, "textures/iron_ore.png");
    assert_eq!(DIAMOND_ORE_TEXTURE, "textures/diamond_ore.png");
}

fn check_preset(m: &Material, base: [u8; 3], reflectivity: f64, transparency: f64, index: f64) {
    assert_eq!(m.base_color, base);
    assert_eq!(m.reflectivity.to_bits(), bits(reflectivity));
    assert_eq!(m.transparency.to_bits(), bits(transparency));
    assert_eq!(m.refractive_index.to_bits(), bits(index));
    for face in 0..6 {
        assert_eq!(m.get_color(face, 0, 0), [5, 6, 7]);
    }
}

#[test]
fn stone_is_grey() {
    check_preset(&create_stone_material(Some(plain(5, 6, 7))), [128, 128, 128], 0.0, 0.0, 1.0);
    assert_eq!(create_stone_material(None).get_color(0, 0, 0), [128, 128, 128]);
}

#[test]
fn dirt_and_wood_are_brown() {
    check_preset(&create_dirt_material(Some(plain(5, 6, 7))), [139, 90, 43], 0.0, 0.0, 1.0);
    check_preset(&create_wood_material(Some(plain(5, 6, 7))), [139, 90, 43], 0.0, 0.0, 1.0);
}

#[test]
fn leaves_are_green_and_a_little_transparent() {
    check_preset(&create_leaves_material(Some(plain(5, 6, 7))), [34, 139, 34], 0.0, 0.2, 1.0);
}

#[test]
fn water_is_blue_transparent_and_a_little_reflective() {
    check_preset(&create_water_material(Some(plain(5, 6, 7))), [30, 70, 200], 0.2, 0.7, 1.33);
}

#[test]
fn ores_have_their_colors() {
    check_preset(&create_coal_ore_material(Some(plain(5, 6, 7))), [64, 64, 64], 0.0, 0.0, 1.0);
    check_preset(&create_iron_ore_material(Some(plain(5, 6, 7))), [188, 152, 98], 0.0, 0.0, 1.0);
    check_preset(&create_diamond_ore_material(Some(plain(5, 6, 7))), [100, 200, 200], 0.3, 0.0, 1.0);
}

#[test]
fn grass_has_three_textures() {
    let m = create_grass_material(Some(plain(1, 1, 1)), Some(plain(2, 2, 2)), Some(plain(3, 3, 3)));
    assert_eq!(m.base_color, [34, 139, 34]);
    assert_eq!(m.get_color(0, 0, 0), [1, 1, 1]);
    assert_eq!(m.get_color(1, 0, 0), [2, 2, 2]);
    for face in 2..6 {
        assert_eq!(m.get_color(face, 0, 0), [3, 3, 3]);
    }
    assert_eq!(m.reflectivity.to_bits(), bits(0.0));
    assert_eq!(m.transparency.to_bits(), bits(0.0));
    assert_eq!(m.refractive_index.to_bits(), bits(1.0));
}

#[test]
fn grass_without_side_texture_is_green_on_the_sides() {
    let m = create_grass_material(Some(plain(1, 1, 1)), None, None);
    assert_eq!(m.get_color(0, 0, 0), [1, 1, 1]);
    for face in 1..6 {
        assert_eq!(m.get_color(face, 0, 0), [34, 139, 34]);
    }
}
