//! Materials: what a cube looks like, face by face.

use vstd::prelude::*;
use crate::scalar::Scalar;
use crate::texture::Texture;

verus! {

/// The bit pattern of 1.0.
pub const ONE_BITS: u64 = 0x3ff0_0000_0000_0000;

/// The bit pattern of 0.2.
pub const BITS_0_2: u64 = 0x3fc9_9999_9999_999a;

/// The bit pattern of 0.3.
pub const BITS_0_3: u64 = 0x3fd3_3333_3333_3333;

/// The bit pattern of 0.7.
pub const BITS_0_7: u64 = 0x3fe6_6666_6666_6666;

/// The bit pattern of 1.33.
pub const BITS_1_33: u64 = 0x3ff5_47ae_147a_e148;

/// The image file of the stone texture.
pub const STONE_TEXTURE: &'static str = "textures/stone.png";

/// The image file of the dirt texture.
pub const DIRT_TEXTURE: &'static str = "textures/dirt.png";

/// The image file of the wood texture.
pub const WOOD_TEXTURE: &'static str = "textures/wood.png";

/// The image file of the leaves texture.
pub const LEAVES_TEXTURE: &'static str = "textures/leaves.png";

/// The image file of the water texture.
pub const WATER_TEXTURE: &'static str = "textures/water.png";

/// The image file of the texture on top of grass.
pub const GRASS_TOP_TEXTURE: &'static str = "textures/grass_top.png";

/// The image file of the texture on the four sides of grass.
pub const GRASS_SIDE_TEXTURE: &'static str = "textures/grass_side.png";

/// The image file of the coal ore texture.
pub const COAL_ORE_TEXTURE: &'static str = "textures/coal_ore.png";

/// The image file of the iron ore texture.
pub const IRON_ORE_TEXTURE: &'static str = "textures/iron_ore.png";

/// The image file of the diamond ore texture.
pub const DIAMOND_ORE_TEXTURE: &'static str = "textures/diamond_ore.png";

/// The surface of a cube.
///
/// `textures` is indexed by face id. A face without a texture shows
/// `base_color`. `reflectivity` and `transparency` are meant to lie in
/// `[0, 1]`, `refractive_index` above zero; the library stores them as given.
#[derive(Debug)]
pub struct Material {
    pub textures: [Option<Texture>; 6],
    pub reflectivity: Scalar,
    pub transparency: Scalar,
    pub refractive_index: Scalar,
    pub base_color: [u8; 3],
}

fn copy_of(texture: &Option<Texture>) -> (copy: Option<Texture>)
    ensures
        copy == *texture,
{
    match texture {
        Some(t) => Some(t.clone()),
        None => None,
    }
}

impl Material {
    /// The colour that [`Material::get_color`] returns.
    pub open spec fn spec_get_color(self, face: usize, column: u32, row: u32) -> (u8, u8, u8) {
        if face < 6 && self.textures[face as int] is Some {
            self.textures[face as int]->0.spec_get_color(column, row)
        } else {
            (self.base_color[0], self.base_color[1], self.base_color[2])
        }
    }

    /// The material has this base colour, these textures by face id, and
    /// these three numbers by their bit patterns.
    pub open spec fn consists_of(
        self,
        base_color: (u8, u8, u8),
        textures: Seq<Option<Texture>>,
        reflectivity: u64,
        transparency: u64,
        refractive_index: u64,
    ) -> bool {
        &&& self.base_color@ =~= seq![base_color.0, base_color.1, base_color.2]
        &&& self.textures@ =~= textures
        &&& self.reflectivity.bits == reflectivity
        &&& self.transparency.bits == transparency
        &&& self.refractive_index.bits == refractive_index
    }

    /// An opaque, matt material of one colour, without textures.
    pub fn new(base_color: [u8; 3]) -> (m: Material)
        ensures
            forall|i: int| 0 <= i < 6 ==> m.textures[i] is None,
            m.reflectivity.bits == 0,
            m.transparency.bits == 0,
            m.refractive_index.bits == ONE_BITS,
            m.base_color == base_color,
    {
        Material {
            textures: [None, None, None, None, None, None],
            reflectivity: Scalar::zero(),
            transparency: Scalar::zero(),
            refractive_index: Scalar::from_bits(ONE_BITS),
            base_color,
        }
    }

    /// Binds `texture` to the face with id `face`, or unbinds the face where
    /// `texture` is `None`. With no such face the material stays as it is.
    pub fn with_texture(self, face: usize, texture: Option<Texture>) -> (m: Material)
        ensures
            face < 6 ==> m.textures@ == self.textures@.update(face as int, texture),
            face >= 6 ==> m.textures == self.textures,
            m.reflectivity == self.reflectivity,
            m.transparency == self.transparency,
            m.refractive_index == self.refractive_index,
            m.base_color == self.base_color,
    {
        let mut m = self;
        if face < 6 {
            m.textures[face] = texture;
        }
        m
    }

    /// Binds `texture` to all six faces.
    pub fn with_all_textures(self, texture: Option<Texture>) -> (m: Material)
        ensures
            forall|i: int| 0 <= i < 6 ==> m.textures[i] == texture,
            m.reflectivity == self.reflectivity,
            m.transparency == self.transparency,
            m.refractive_index == self.refractive_index,
            m.base_color == self.base_color,
    {
        let mut m = self;
        let mut i: usize = 0;
        while i < 6
            invariant
                i <= 6,
                forall|j: int| 0 <= j < i ==> m.textures[j] == texture,
                m.reflectivity == self.reflectivity,
                m.transparency == self.transparency,
                m.refractive_index == self.refractive_index,
                m.base_color == self.base_color,
            decreases 6 - i,
        {
            m.textures[i] = copy_of(&texture);
            i += 1;
        }
        m
    }

    /// Sets the reflectivity.
    pub fn with_reflectivity(self, reflectivity: Scalar) -> (m: Material)
        ensures
            m.reflectivity == reflectivity,
            m.textures == self.textures,
            m.transparency == self.transparency,
            m.refractive_index == self.refractive_index,
            m.base_color == self.base_color,
    {
        let mut m = self;
        m.reflectivity = reflectivity;
        m
    }

    /// Sets the transparency and the refractive index.
    pub fn with_transparency(self, transparency: Scalar, refractive_index: Scalar) -> (m: Material)
        ensures
            m.transparency == transparency,
            m.refractive_index == refractive_index,
            m.textures == self.textures,
            m.reflectivity == self.reflectivity,
            m.base_color == self.base_color,
    {
        let mut m = self;
        m.transparency = transparency;
        m.refractive_index = refractive_index;
        m
    }

    /// The texture bound to the face with id `face`, if there is such a face
    /// and it has one.
    pub fn texture(&self, face: usize) -> (texture: Option<&Texture>)
        ensures
            face < 6 && self.textures[face as int] is Some ==> texture == Some(
                &self.textures[face as int]->0,
            ),
            !(face < 6 && self.textures[face as int] is Some) ==> texture is None,
    {
        if face < 6 {
            self.textures[face].as_ref()
        } else {
            None
        }
    }

    /// The colour of the face with id `face` at a pixel of its texture, or the
    /// base colour where the face has no texture or there is no such face.
    pub fn get_color(&self, face: usize, column: u32, row: u32) -> (rgb: [u8; 3])
        ensures
            (rgb[0], rgb[1], rgb[2]) == self.spec_get_color(face, column, row),
    {
        if face < 6 {
            if let Some(texture) = &self.textures[face] {
                return texture.get_color(column, row);
            }
        }
        self.base_color
    }
}

/// Stone: grey, with the image of [`STONE_TEXTURE`] on every face.
pub fn create_stone_material(texture: Option<Texture>) -> (m: Material)
    ensures
        m.consists_of((128, 128, 128), Seq::new(6, |i: int| texture), 0, 0, ONE_BITS),
{
    Material::new([128, 128, 128]).with_all_textures(texture)
}

/// Dirt: brown, with the image of [`DIRT_TEXTURE`] on every face.
pub fn create_dirt_material(texture: Option<Texture>) -> (m: Material)
    ensures
        m.consists_of((139, 90, 43), Seq::new(6, |i: int| texture), 0, 0, ONE_BITS),
{
    Material::new([139, 90, 43]).with_all_textures(texture)
}

/// Wood: brown, with the image of [`WOOD_TEXTURE`] on every face.
pub fn create_wood_material(texture: Option<Texture>) -> (m: Material)
    ensures
        m.consists_of((139, 90, 43), Seq::new(6, |i: int| texture), 0, 0, ONE_BITS),
{
    Material::new([139, 90, 43]).with_all_textures(texture)
}

/// Leaves: green, with the image of [`LEAVES_TEXTURE`] on every face, and a
/// transparency of 0.2 at a refractive index of 1.
pub fn create_leaves_material(texture: Option<Texture>) -> (m: Material)
    ensures
        m.consists_of((34, 139, 34), Seq::new(6, |i: int| texture), 0, BITS_0_2, ONE_BITS),
{
    Material::new([34, 139, 34]).with_all_textures(texture).with_transparency(
        Scalar::from_bits(BITS_0_2),
        Scalar::from_bits(ONE_BITS),
    )
}

/// Water: blue, with the image of [`WATER_TEXTURE`] on every face, a
/// transparency of 0.7 at a refractive index of 1.33, and a reflectivity of
/// 0.2.
pub fn create_water_material(texture: Option<Texture>) -> (m: Material)
    ensures
        m.consists_of(
            (30, 70, 200),
            Seq::new(6, |i: int| texture),
            BITS_0_2,
            BITS_0_7,
            BITS_1_33,
        ),
{
    Material::new([30, 70, 200]).with_all_textures(texture).with_transparency(
        Scalar::from_bits(BITS_0_7),
        Scalar::from_bits(BITS_1_33),
    ).with_reflectivity(Scalar::from_bits(BITS_0_2))
}

/// Grass: green, with the image of [`GRASS_TOP_TEXTURE`] on top, that of
/// [`DIRT_TEXTURE`] below and that of [`GRASS_SIDE_TEXTURE`] on the four
/// sides.
pub fn create_grass_material(
    top: Option<Texture>,
    bottom: Option<Texture>,
    side: Option<Texture>,
) -> (m: Material)
    ensures
        m.consists_of((34, 139, 34), seq![top, bottom, side, side, side, side], 0, 0, ONE_BITS),
{
    let north = copy_of(&side);
    let south = copy_of(&side);
    let east = copy_of(&side);
    Material::new([34, 139, 34]).with_texture(0, top).with_texture(1, bottom).with_texture(
        2,
        north,
    ).with_texture(3, south).with_texture(4, east).with_texture(5, side)
}

/// Coal ore: dark grey, with the image of [`COAL_ORE_TEXTURE`] on every face.
pub fn create_coal_ore_material(texture: Option<Texture>) -> (m: Material)
    ensures
        m.consists_of((64, 64, 64), Seq::new(6, |i: int| texture), 0, 0, ONE_BITS),
{
    Material::new([64, 64, 64]).with_all_textures(texture)
}

/// Iron ore: tan, with the image of [`IRON_ORE_TEXTURE`] on every face.
pub fn create_iron_ore_material(texture: Option<Texture>) -> (m: Material)
    ensures
        m.consists_of((188, 152, 98), Seq::new(6, |i: int| texture), 0, 0, ONE_BITS),
{
    Material::new([188, 152, 98]).with_all_textures(texture)
}

/// Diamond ore: pale cyan, with the image of [`DIAMOND_ORE_TEXTURE`] on every
/// face, and a reflectivity of 0.3.
pub fn create_diamond_ore_material(texture: Option<Texture>) -> (m: Material)
    ensures
        m.consists_of((100, 200, 200), Seq::new(6, |i: int| texture), BITS_0_3, 0, ONE_BITS),
{
    Material::new([100, 200, 200]).with_all_textures(texture).with_reflectivity(
        Scalar::from_bits(BITS_0_3),
    )
}

impl Clone for Material {
    fn clone(&self) -> (copy: Self)
        ensures
            copy == *self,
    {
        let copy = Material {
            textures: [
                copy_of(&self.textures[0]),
                copy_of(&self.textures[1]),
                copy_of(&self.textures[2]),
                copy_of(&self.textures[3]),
                copy_of(&self.textures[4]),
                copy_of(&self.textures[5]),
            ],
            reflectivity: self.reflectivity,
            transparency: self.transparency,
            refractive_index: self.refractive_index,
            base_color: self.base_color,
        };
        assert(copy.textures =~= self.textures);
        copy
    }
}

} // verus!
