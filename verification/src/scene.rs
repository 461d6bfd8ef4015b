//! Scenes: cubes in space, built one by one or from layers of text.

use vstd::prelude::*;
use crate::layers::{
    LayerFile, as_ints, layer_order, lemma_layer_order_sorts_layers, rows_of, spec_layer_order,
    spec_lines, split_lines,
};
use crate::material::{Material, ONE_BITS};
use crate::scalar::Scalar;
use crate::vector::Vec3;

verus! {

/// An axis-aligned cube, by its centre and the length of its edge: on each
/// axis it reaches from half an edge below the centre to half an edge above.
/// The edge is meant to be a number above zero, so that the lower corner lies
/// below the upper one; the library stores it as given.
#[derive(Debug)]
pub struct Cube {
    pub center: Vec3,
    pub size: Scalar,
    pub material: Material,
}

/// The materials that the characters of a layer stand for.
#[derive(Debug)]
pub struct Palette {
    pub stone: Material,
    pub water: Material,
    pub dirt: Material,
    pub wood: Material,
    pub leaves: Material,
    pub coal_ore: Material,
    pub iron_ore: Material,
    pub diamond_ore: Material,
}

/// The cubes to render, in the order in which they were added.
#[derive(Debug)]
pub struct Scene {
    pub cubes: Vec<Cube>,
}

impl Cube {
    /// The cube with the given centre, edge and material.
    pub fn new(center: Vec3, size: Scalar, material: Material) -> (cube: Cube)
        ensures
            cube == (Cube { center, size, material }),
    {
        Cube { center, size, material }
    }
}

impl Palette {
    /// The material that a character of a layer stands for. `X`, `_`, the
    /// blank and every character without a meaning stand for empty space.
    pub open spec fn spec_material_for(self, c: char) -> Option<Material> {
        if c == 'P' {
            Some(self.stone)
        } else if c == 'A' {
            Some(self.water)
        } else if c == 'T' {
            Some(self.dirt)
        } else if c == 'M' {
            Some(self.wood)
        } else if c == 'H' {
            Some(self.leaves)
        } else if c == 'C' {
            Some(self.coal_ore)
        } else if c == 'I' {
            Some(self.iron_ore)
        } else if c == 'D' {
            Some(self.diamond_ore)
        } else {
            None
        }
    }
}

/// The character has no meaning in a layer: it stands for no material and is
/// none of `X`, `_` and the blank, the three that stand for empty space. The
/// scene takes such a character for empty space too.
pub open spec fn spec_is_unknown(c: char) -> bool {
    !(c == 'P' || c == 'A' || c == 'T' || c == 'M' || c == 'H' || c == 'C' || c == 'I' || c == 'D'
        || c == 'X' || c == '_' || c == ' ')
}

/// The test for a character without a meaning, as a predicate.
pub open spec fn unknown() -> spec_fn(char) -> bool {
    |c: char| spec_is_unknown(c)
}

/// The characters without a meaning in the first `n` rows of a layer, row by
/// row, each as often as it occurs.
pub open spec fn layer_unknowns(rows: Seq<Seq<char>>, n: int) -> Seq<char>
    decreases n,
{
    if n <= 0 {
        Seq::empty()
    } else {
        layer_unknowns(rows, n - 1) + rows[n - 1].filter(unknown())
    }
}

/// The characters without a meaning in the first `n` layers of `order`.
pub open spec fn stacked_unknowns(files: Seq<LayerFile>, order: Seq<int>, n: int) -> Seq<char>
    decreases n,
{
    if n <= 0 {
        Seq::empty()
    } else {
        let rows = spec_lines(files[order[n - 1]].content@);
        stacked_unknowns(files, order, n - 1) + layer_unknowns(rows, rows.len() as int)
    }
}

/// The characters without a meaning in the layers of a listing, in the order
/// in which the scene reads them: layer by layer from the bottom, row by row,
/// from the left.
pub open spec fn spec_unknown_characters(files: Seq<LayerFile>) -> Seq<char> {
    let order = spec_layer_order(files, files.len() as int);
    stacked_unknowns(files, order, order.len() as int)
}

/// A character without a meaning stands for no material.
pub proof fn lemma_unknown_stands_for_nothing(palette: Palette, c: char)
    requires
        spec_is_unknown(c),
    ensures
        palette.spec_material_for(c) is None,
{
}

/// The cube of edge 1 whose centre is the lattice point `(x, y, z)`.
pub open spec fn cube_at(x: int, y: int, z: int, material: Material) -> Cube {
    Cube { center: Vec3::lattice(x, y, z), size: Scalar { bits: ONE_BITS }, material }
}

/// The cubes that the first `n` characters of a row stand for, the row being
/// row `z` of layer `y`. The character in column `x` stands at `(x, y, z)`.
pub open spec fn row_cubes(row: Seq<char>, n: int, y: int, z: int, palette: Palette) -> Seq<Cube>
    decreases n,
{
    if n <= 0 {
        Seq::empty()
    } else {
        let before = row_cubes(row, n - 1, y, z, palette);
        match palette.spec_material_for(row[n - 1]) {
            Some(material) => before.push(cube_at(n - 1, y, z, material)),
            None => before,
        }
    }
}

/// The cubes of the first `n` rows of layer `y`, row by row. Each is a cube
/// of edge 1 on a lattice point.
pub open spec fn layer_cubes(rows: Seq<Seq<char>>, n: int, y: int, palette: Palette) -> Seq<Cube>
    decreases n,
{
    if n <= 0 {
        Seq::empty()
    } else {
        layer_cubes(rows, n - 1, y, palette) + row_cubes(
            rows[n - 1],
            rows[n - 1].len() as int,
            y,
            n - 1,
            palette,
        )
    }
}

/// The cubes of the first `n` layers of `order`, layer by layer from the
/// bottom. The layer in place `k` of the order lies at height `k`.
pub open spec fn stacked_cubes(
    files: Seq<LayerFile>,
    order: Seq<int>,
    n: int,
    palette: Palette,
) -> Seq<Cube>
    decreases n,
{
    if n <= 0 {
        Seq::empty()
    } else {
        let rows = spec_lines(files[order[n - 1]].content@);
        stacked_cubes(files, order, n - 1, palette) + layer_cubes(
            rows,
            rows.len() as int,
            n - 1,
            palette,
        )
    }
}

/// The cubes of the built-in scene: a floor of five by five stone cubes, a
/// water cube on it, a trunk of three wood cubes and a canopy of three by
/// three leaves cubes.
pub open spec fn example_cubes(palette: Palette) -> Seq<Cube> {
    Seq::new(25, |i: int| cube_at(i / 5, 0, i % 5, palette.stone))
        + seq![cube_at(2, 1, 2, palette.water)] + Seq::new(
        3,
        |i: int| cube_at(1, i + 1, 1, palette.wood),
    ) + Seq::new(
        9,
        |i: int| cube_at(i / 3, 4, i % 3, palette.leaves),
    )
}

/// The cubes of the scene that a listing of files describes: those of its
/// layers, stacked in their order, or the built-in scene where no file of
/// the listing is a layer.
pub open spec fn spec_from_layers(files: Seq<LayerFile>, palette: Palette) -> Seq<Cube> {
    let order = spec_layer_order(files, files.len() as int);
    if order.len() == 0 {
        example_cubes(palette)
    } else {
        stacked_cubes(files, order, order.len() as int, palette)
    }
}

/// What the cell in column `x` of row `z` of layer `y` stands for, the
/// layers counted from the bottom; nothing where there is no such cell.
pub open spec fn cell_material(
    files: Seq<LayerFile>,
    palette: Palette,
    x: int,
    y: int,
    z: int,
) -> Option<Material> {
    let order = spec_layer_order(files, files.len() as int);
    if 0 <= y < order.len() {
        row_material(spec_lines(files[order[y]].content@), palette, x, z)
    } else {
        None
    }
}

/// What the cell in column `x` of row `z` of a layer stands for.
pub open spec fn row_material(
    rows: Seq<Seq<char>>,
    palette: Palette,
    x: int,
    z: int,
) -> Option<Material> {
    if 0 <= z < rows.len() && 0 <= x < rows[z].len() {
        palette.spec_material_for(rows[z][x])
    } else {
        None
    }
}

/// The cube stands in a cell of the first `n` columns of a row: it is the
/// cube of a column whose character stands for its material.
pub open spec fn stands_in_row(
    cube: Cube,
    row: Seq<char>,
    n: int,
    y: int,
    z: int,
    palette: Palette,
) -> bool {
    exists|x: int|
        0 <= x < n && palette.spec_material_for(row[x]) is Some && cube == #[trigger] cube_at(
            x,
            y,
            z,
            palette.spec_material_for(row[x])->0,
        )
}

/// The cube stands in a cell of the first `n` rows of a layer.
pub open spec fn stands_in_layer(
    cube: Cube,
    rows: Seq<Seq<char>>,
    n: int,
    y: int,
    palette: Palette,
) -> bool {
    exists|x: int, z: int|
        0 <= z < n && row_material(rows, palette, x, z) is Some && cube == #[trigger] cube_at(
            x,
            y,
            z,
            row_material(rows, palette, x, z)->0,
        )
}

/// The cube stands in a cell of the layers: it is the cube of a cell whose
/// character stands for its material.
pub open spec fn stands_in_a_cell(cube: Cube, files: Seq<LayerFile>, palette: Palette) -> bool {
    exists|x: int, y: int, z: int|
        cell_material(files, palette, x, y, z) is Some && cube == #[trigger] cube_at(
            x,
            y,
            z,
            cell_material(files, palette, x, y, z)->0,
        )
}

proof fn lemma_row_cubes_are_the_cells(row: Seq<char>, n: int, y: int, z: int, palette: Palette)
    requires
        0 <= n <= row.len(),
    ensures
        forall|k: int|
            0 <= k < row_cubes(row, n, y, z, palette).len() ==> stands_in_row(
                #[trigger] row_cubes(row, n, y, z, palette)[k],
                row,
                n,
                y,
                z,
                palette,
            ),
        forall|x: int|
            0 <= x < n && palette.spec_material_for(#[trigger] row[x]) is Some ==> row_cubes(
                row,
                n,
                y,
                z,
                palette,
            ).contains(cube_at(x, y, z, palette.spec_material_for(row[x])->0)),
    decreases n,
{
    if n > 0 {
        lemma_row_cubes_are_the_cells(row, n - 1, y, z, palette);
        let before = row_cubes(row, n - 1, y, z, palette);
        let cubes = row_cubes(row, n, y, z, palette);
        assert forall|k: int| 0 <= k < cubes.len() implies stands_in_row(
            #[trigger] cubes[k],
            row,
            n,
            y,
            z,
            palette,
        ) by {
            if k < before.len() {
                assert(cubes[k] == before[k]);
                assert(stands_in_row(before[k], row, n - 1, y, z, palette));
                let x = choose|x: int|
                    0 <= x < n - 1 && palette.spec_material_for(row[x]) is Some && before[k]
                        == #[trigger] cube_at(x, y, z, palette.spec_material_for(row[x])->0);
                assert(cubes[k] == cube_at(x, y, z, palette.spec_material_for(row[x])->0));
            } else {
                assert(cubes[k] == cube_at(
                    n - 1,
                    y,
                    z,
                    palette.spec_material_for(row[n - 1])->0,
                ));
            }
        }
        assert forall|x: int|
            0 <= x < n && palette.spec_material_for(#[trigger] row[x]) is Some implies cubes.contains(
            cube_at(x, y, z, palette.spec_material_for(row[x])->0),
        ) by {
            let cube = cube_at(x, y, z, palette.spec_material_for(row[x])->0);
            if x < n - 1 {
                assert(before.contains(cube));
                let k = choose|k: int| 0 <= k < before.len() && before[k] == cube;
                assert(cubes[k] == cube);
            } else {
                assert(cubes[cubes.len() - 1] == cube);
            }
        }
    }
}

proof fn lemma_layer_cubes_are_the_cells(rows: Seq<Seq<char>>, n: int, y: int, palette: Palette)
    requires
        0 <= n <= rows.len(),
    ensures
        forall|k: int|
            0 <= k < layer_cubes(rows, n, y, palette).len() ==> stands_in_layer(
                #[trigger] layer_cubes(rows, n, y, palette)[k],
                rows,
                n,
                y,
                palette,
            ),
        forall|x: int, z: int|
            0 <= z < n && #[trigger] row_material(rows, palette, x, z) is Some ==> layer_cubes(
                rows,
                n,
                y,
                palette,
            ).contains(cube_at(x, y, z, row_material(rows, palette, x, z)->0)),
    decreases n,
{
    if n > 0 {
        lemma_layer_cubes_are_the_cells(rows, n - 1, y, palette);
        let row = rows[n - 1];
        lemma_row_cubes_are_the_cells(row, row.len() as int, y, n - 1, palette);
        let before = layer_cubes(rows, n - 1, y, palette);
        let last = row_cubes(row, row.len() as int, y, n - 1, palette);
        let cubes = layer_cubes(rows, n, y, palette);
        assert(cubes == before + last);
        assert forall|k: int| 0 <= k < cubes.len() implies stands_in_layer(
            #[trigger] cubes[k],
            rows,
            n,
            y,
            palette,
        ) by {
            if k < before.len() {
                assert(cubes[k] == before[k]);
                assert(stands_in_layer(before[k], rows, n - 1, y, palette));
                let (x, z) = choose|x: int, z: int|
                    0 <= z < n - 1 && row_material(rows, palette, x, z) is Some && before[k]
                        == #[trigger] cube_at(x, y, z, row_material(rows, palette, x, z)->0);
                assert(cubes[k] == cube_at(x, y, z, row_material(rows, palette, x, z)->0));
            } else {
                let cube = last[k - before.len()];
                assert(cubes[k] == cube);
                assert(stands_in_row(cube, row, row.len() as int, y, n - 1, palette));
                let x = choose|x: int|
                    0 <= x < row.len() && palette.spec_material_for(row[x]) is Some && cube
                        == #[trigger] cube_at(x, y, n - 1, palette.spec_material_for(row[x])->0);
                assert(row_material(rows, palette, x, n - 1) == palette.spec_material_for(row[x]));
                assert(cubes[k] == cube_at(x, y, n - 1, row_material(rows, palette, x, n - 1)->0));
            }
        }
        assert forall|x: int, z: int|
            0 <= z < n && #[trigger] row_material(rows, palette, x, z) is Some implies cubes.contains(
            cube_at(x, y, z, row_material(rows, palette, x, z)->0),
        ) by {
            let cube = cube_at(x, y, z, row_material(rows, palette, x, z)->0);
            if z < n - 1 {
                assert(before.contains(cube));
                let k = choose|k: int| 0 <= k < before.len() && before[k] == cube;
                assert(cubes[k] == cube);
            } else {
                assert(palette.spec_material_for(row[x]) is Some);
                assert(last.contains(cube));
                let k = choose|k: int| 0 <= k < last.len() && last[k] == cube;
                assert(cubes[before.len() + k] == cube);
            }
        }
    }
}

/// The cube stands in a cell of the first `n` layers of an order.
pub open spec fn stands_in_stack(
    cube: Cube,
    files: Seq<LayerFile>,
    order: Seq<int>,
    n: int,
    palette: Palette,
) -> bool {
    exists|x: int, y: int, z: int|
        0 <= y < n && row_material(spec_lines(files[order[y]].content@), palette, x, z) is Some
            && cube == #[trigger] cube_at(
            x,
            y,
            z,
            row_material(spec_lines(files[order[y]].content@), palette, x, z)->0,
        )
}

proof fn lemma_stacked_cubes_are_the_cells(
    files: Seq<LayerFile>,
    order: Seq<int>,
    n: int,
    palette: Palette,
)
    requires
        0 <= n <= order.len(),
    ensures
        forall|k: int|
            0 <= k < stacked_cubes(files, order, n, palette).len() ==> stands_in_stack(
                #[trigger] stacked_cubes(files, order, n, palette)[k],
                files,
                order,
                n,
                palette,
            ),
        forall|x: int, y: int, z: int|
            0 <= y < n && #[trigger] row_material(
                spec_lines(files[order[y]].content@),
                palette,
                x,
                z,
            ) is Some ==> stacked_cubes(files, order, n, palette).contains(
                cube_at(
                    x,
                    y,
                    z,
                    row_material(spec_lines(files[order[y]].content@), palette, x, z)->0,
                ),
            ),
    decreases n,
{
    if n > 0 {
        lemma_stacked_cubes_are_the_cells(files, order, n - 1, palette);
        let rows = spec_lines(files[order[n - 1]].content@);
        lemma_layer_cubes_are_the_cells(rows, rows.len() as int, n - 1, palette);
        let before = stacked_cubes(files, order, n - 1, palette);
        let last = layer_cubes(rows, rows.len() as int, n - 1, palette);
        let cubes = stacked_cubes(files, order, n, palette);
        assert(cubes == before + last);
        assert forall|k: int| 0 <= k < cubes.len() implies stands_in_stack(
            #[trigger] cubes[k],
            files,
            order,
            n,
            palette,
        ) by {
            if k < before.len() {
                assert(cubes[k] == before[k]);
                assert(stands_in_stack(before[k], files, order, n - 1, palette));
                let (x, y, z) = choose|x: int, y: int, z: int|
                    0 <= y < n - 1 && row_material(
                        spec_lines(files[order[y]].content@),
                        palette,
                        x,
                        z,
                    ) is Some && before[k] == #[trigger] cube_at(
                        x,
                        y,
                        z,
                        row_material(spec_lines(files[order[y]].content@), palette, x, z)->0,
                    );
                assert(cubes[k] == cube_at(
                    x,
                    y,
                    z,
                    row_material(spec_lines(files[order[y]].content@), palette, x, z)->0,
                ));
            } else {
                let cube = last[k - before.len()];
                assert(cubes[k] == cube);
                assert(stands_in_layer(cube, rows, rows.len() as int, n - 1, palette));
                let (x, z) = choose|x: int, z: int|
                    0 <= z < rows.len() && row_material(rows, palette, x, z) is Some && cube
                        == #[trigger] cube_at(x, n - 1, z, row_material(rows, palette, x, z)->0);
                assert(cubes[k] == cube_at(
                    x,
                    n - 1,
                    z,
                    row_material(spec_lines(files[order[n - 1]].content@), palette, x, z)->0,
                ));
            }
        }
        assert forall|x: int, y: int, z: int|
            0 <= y < n && #[trigger] row_material(
                spec_lines(files[order[y]].content@),
                palette,
                x,
                z,
            ) is Some implies cubes.contains(
            cube_at(
                x,
                y,
                z,
                row_material(spec_lines(files[order[y]].content@), palette, x, z)->0,
            ),
        ) by {
            let cube = cube_at(
                x,
                y,
                z,
                row_material(spec_lines(files[order[y]].content@), palette, x, z)->0,
            );
            if y < n - 1 {
                assert(before.contains(cube));
                let k = choose|k: int| 0 <= k < before.len() && before[k] == cube;
                assert(cubes[k] == cube);
            } else {
                assert(last.contains(cube));
                let k = choose|k: int| 0 <= k < last.len() && last[k] == cube;
                assert(cubes[before.len() + k] == cube);
            }
        }
    }
}

/// A scene of layers holds exactly the cells that stand for a material: every
/// cube of it is the unit cube of a cell whose character stands for its
/// material, and every such cell has its cube.
pub proof fn lemma_scene_is_the_cells(files: Seq<LayerFile>, palette: Palette)
    requires
        spec_layer_order(files, files.len() as int).len() > 0,
    ensures
        forall|k: int|
            0 <= k < spec_from_layers(files, palette).len() ==> stands_in_a_cell(
                #[trigger] spec_from_layers(files, palette)[k],
                files,
                palette,
            ),
        forall|x: int, y: int, z: int|
            #[trigger] cell_material(files, palette, x, y, z) is Some ==> spec_from_layers(
                files,
                palette,
            ).contains(cube_at(x, y, z, cell_material(files, palette, x, y, z)->0)),
{
    let order = spec_layer_order(files, files.len() as int);
    lemma_stacked_cubes_are_the_cells(files, order, order.len() as int, palette);
    let cubes = spec_from_layers(files, palette);
    assert(cubes == stacked_cubes(files, order, order.len() as int, palette));
    assert forall|k: int| 0 <= k < cubes.len() implies stands_in_a_cell(
        #[trigger] cubes[k],
        files,
        palette,
    ) by {
        assert(stands_in_stack(cubes[k], files, order, order.len() as int, palette));
        let (x, y, z) = choose|x: int, y: int, z: int|
            0 <= y < order.len() && row_material(
                spec_lines(files[order[y]].content@),
                palette,
                x,
                z,
            ) is Some && cubes[k] == #[trigger] cube_at(
                x,
                y,
                z,
                row_material(spec_lines(files[order[y]].content@), palette, x, z)->0,
            );
        assert(cell_material(files, palette, x, y, z) == row_material(
            spec_lines(files[order[y]].content@),
            palette,
            x,
            z,
        ));
        assert(cubes[k] == cube_at(x, y, z, cell_material(files, palette, x, y, z)->0));
    }
    assert forall|x: int, y: int, z: int| #[trigger]
        cell_material(files, palette, x, y, z) is Some implies cubes.contains(
        cube_at(x, y, z, cell_material(files, palette, x, y, z)->0),
    ) by {
        assert(0 <= y < order.len());
        assert(row_material(spec_lines(files[order[y]].content@), palette, x, z) is Some);
    }
}

impl Scene {
    /// The empty scene.
    pub fn new() -> (scene: Scene)
        ensures
            scene.cubes@ == Seq::<Cube>::empty(),
    {
        Scene { cubes: Vec::new() }
    }

    /// Adds a cube behind those already there.
    pub fn add_cube(&mut self, cube: Cube)
        ensures
            final(self).cubes@ == old(self).cubes@.push(cube),
    {
        self.cubes.push(cube);
    }

    /// The material that a character of a layer stands for, if it stands for
    /// one.
    pub fn get_material_from_char(c: char, palette: &Palette) -> (material: Option<Material>)
        ensures
            material == palette.spec_material_for(c),
    {
        if c == 'P' {
            Some(palette.stone.clone())
        } else if c == 'A' {
            Some(palette.water.clone())
        } else if c == 'T' {
            Some(palette.dirt.clone())
        } else if c == 'M' {
            Some(palette.wood.clone())
        } else if c == 'H' {
            Some(palette.leaves.clone())
        } else if c == 'C' {
            Some(palette.coal_ore.clone())
        } else if c == 'I' {
            Some(palette.iron_ore.clone())
        } else if c == 'D' {
            Some(palette.diamond_ore.clone())
        } else {
            None
        }
    }

    /// Whether a character has no meaning in a layer.
    pub fn is_unknown(c: char) -> (r: bool)
        ensures
            r == spec_is_unknown(c),
    {
        !(c == 'P' || c == 'A' || c == 'T' || c == 'M' || c == 'H' || c == 'C' || c == 'I'
            || c == 'D' || c == 'X' || c == '_' || c == ' ')
    }

    /// Lists the characters of the layers that have no meaning, each as often
    /// as it occurs and in the order in which the scene reads them. The scene
    /// takes them for empty space; the caller may want to warn of them.
    pub fn unknown_characters(files: &Vec<LayerFile>) -> (found: Vec<char>)
        ensures
            found@ == spec_unknown_characters(files@),
    {
        let order = layer_order(files);
        let ghost layers = as_ints(order@);
        proof {
            lemma_layer_order_sorts_layers(files@);
        }
        let mut found: Vec<char> = Vec::new();
        let mut y: usize = 0;
        while y < order.len()
            invariant
                y <= order.len(),
                layers == as_ints(order@),
                forall|k: int| 0 <= k < order.len() ==> 0 <= #[trigger] layers[k] < files.len(),
                found@ == stacked_unknowns(files@, layers, y as int),
            decreases order.len() - y,
        {
            assert(layers[y as int] == order[y as int]);
            let file = &files[order[y]];
            let lines = split_lines(file.content.as_str());
            let ghost rows = rows_of(lines@);
            let ghost below = found@;
            let mut z: usize = 0;
            while z < lines.len()
                invariant
                    z <= lines.len(),
                    rows == rows_of(lines@),
                    found@ == below + layer_unknowns(rows, z as int),
                decreases lines.len() - z,
            {
                let line = &lines[z];
                let ghost behind = found@;
                let mut x: usize = 0;
                proof {
                    reveal(Seq::filter);
                    assert(line@.take(0).filter(unknown()) =~= Seq::<char>::empty());
                }
                while x < line.len()
                    invariant
                        x <= line.len(),
                        found@ == behind + line@.take(x as int).filter(unknown()),
                    decreases line.len() - x,
                {
                    let c: char = line[x];
                    proof {
                        reveal(Seq::filter);
                        let longer = line@.take(x + 1);
                        assert(longer.drop_last() =~= line@.take(x as int));
                        assert(longer.last() == c);
                    }
                    if Scene::is_unknown(c) {
                        found.push(c);
                        assert(found@ =~= behind + line@.take(x + 1).filter(unknown()));
                    }
                    x += 1;
                }
                proof {
                    assert(rows[z as int] == line@);
                    assert(line@.take(line.len() as int) =~= line@);
                    assert(found@ =~= below + layer_unknowns(rows, z + 1));
                }
                z += 1;
            }
            y += 1;
        }
        found
    }

    /// Builds the scene that the files of a layers directory describe.
    ///
    /// The layers are the files whose names end in `.txt`, stacked by the
    /// number in their names. In a layer, each line is a row along z and each
    /// character of a line a cell along x. A listing without layers, such as
    /// that of a directory that does not exist, gives the built-in scene.
    pub fn from_layers(files: &Vec<LayerFile>, palette: &Palette) -> (scene: Scene)
        ensures
            scene.cubes@ == spec_from_layers(files@, *palette),
    {
        let order = layer_order(files);
        if order.len() == 0 {
            return Scene::create_example_scene(palette);
        }
        let ghost layers = as_ints(order@);
        proof {
            lemma_layer_order_sorts_layers(files@);
        }
        let mut scene = Scene::new();
        let mut y: usize = 0;
        while y < order.len()
            invariant
                y <= order.len(),
                layers == as_ints(order@),
                forall|k: int| 0 <= k < order.len() ==> 0 <= #[trigger] layers[k] < files.len(),
                scene.cubes@ == stacked_cubes(files@, layers, y as int, *palette),
            decreases order.len() - y,
        {
            assert(layers[y as int] == order[y as int]);
            let file = &files[order[y]];
            let lines = split_lines(file.content.as_str());
            let ghost rows = rows_of(lines@);
            let ghost below = scene.cubes@;
            let mut z: usize = 0;
            while z < lines.len()
                invariant
                    z <= lines.len(),
                    rows == rows_of(lines@),
                    scene.cubes@ == below + layer_cubes(rows, z as int, y as int, *palette),
                decreases lines.len() - z,
            {
                let line = &lines[z];
                let ghost behind = scene.cubes@;
                let mut x: usize = 0;
                while x < line.len()
                    invariant
                        x <= line.len(),
                        scene.cubes@ == behind + row_cubes(
                            line@,
                            x as int,
                            y as int,
                            z as int,
                            *palette,
                        ),
                    decreases line.len() - x,
                {
                    let ghost row = row_cubes(line@, x as int, y as int, z as int, *palette);
                    match Scene::get_material_from_char(line[x], palette) {
                        Some(material) => {
                            let cube = Cube::new(Vec3::from_indices(x, y, z), Scalar::from_bits(ONE_BITS), material);
                            scene.add_cube(cube);
                            assert(scene.cubes@ =~= behind + row.push(cube));
                        },
                        None => {},
                    }
                    x += 1;
                }
                proof {
                    assert(rows[z as int] == line@);
                    assert(scene.cubes@ =~= below + layer_cubes(
                        rows,
                        z + 1,
                        y as int,
                        *palette,
                    ));
                }
                z += 1;
            }
            y += 1;
        }
        scene
    }

    /// Builds the built-in scene.
    pub fn create_example_scene(palette: &Palette) -> (scene: Scene)
        ensures
            scene.cubes@ == example_cubes(*palette),
    {
        let mut scene = Scene::new();
        let mut x: usize = 0;
        while x < 5
            invariant
                x <= 5,
                scene.cubes@ == Seq::new(
                    (x * 5) as nat,
                    |i: int| cube_at(i / 5, 0, i % 5, palette.stone),
                ),
            decreases 5 - x,
        {
            let mut z: usize = 0;
            while z < 5
                invariant
                    x < 5,
                    z <= 5,
                    scene.cubes@ == Seq::new(
                        (x * 5 + z) as nat,
                        |i: int| cube_at(i / 5, 0, i % 5, palette.stone),
                    ),
                decreases 5 - z,
            {
                scene.add_cube(Cube::new(
                    Vec3::from_indices(x, 0, z),
                    Scalar::from_bits(ONE_BITS),
                    palette.stone.clone(),
                ));
                z += 1;
            }
            x += 1;
        }
        let ghost floor = scene.cubes@;
        scene.add_cube(Cube::new(
            Vec3::from_indices(2, 1, 2),
            Scalar::from_bits(ONE_BITS),
            palette.water.clone(),
        ));
        let mut y: usize = 1;
        while y < 4
            invariant
                1 <= y <= 4,
                scene.cubes@ == floor + seq![cube_at(2, 1, 2, palette.water)]
                    + Seq::new(
                    (y - 1) as nat,
                    |i: int| cube_at(1, i + 1, 1, palette.wood),
                ),
            decreases 4 - y,
        {
            scene.add_cube(Cube::new(
                Vec3::from_indices(1, y, 1),
                Scalar::from_bits(ONE_BITS),
                palette.wood.clone(),
            ));
            y += 1;
        }
        let ghost trunk = scene.cubes@;
        let mut x: usize = 0;
        while x < 3
            invariant
                x <= 3,
                scene.cubes@ == trunk + Seq::new(
                    (x * 3) as nat,
                    |i: int| cube_at(i / 3, 4, i % 3, palette.leaves),
                ),
            decreases 3 - x,
        {
            let mut z: usize = 0;
            while z < 3
                invariant
                    x < 3,
                    z <= 3,
                    scene.cubes@ == trunk + Seq::new(
                        (x * 3 + z) as nat,
                        |i: int| cube_at(i / 3, 4, i % 3, palette.leaves),
                    ),
                decreases 3 - z,
            {
                scene.add_cube(Cube::new(
                    Vec3::from_indices(x, 4, z),
                    Scalar::from_bits(ONE_BITS),
                    palette.leaves.clone(),
                ));
                z += 1;
            }
            x += 1;
        }
        scene
    }
}

} // verus!
