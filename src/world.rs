//! World generation: the terrain mesh over the height grid, and the trees.
use crate::fixed::{scale, scaled, UNIT};
use crate::rng::{draw_in, seeded_rng};
use rand::rngs::StdRng;
use vstd::arithmetic::div_mod::{lemma_fundamental_div_mod, lemma_fundamental_div_mod_converse};
use vstd::prelude::*;

verus! {

/// Vertices along each side of the terrain grid.
pub const GRID: usize = 64;

/// Number of vertices of the terrain grid.
pub const GRID_VERTICES: usize = 4096;

/// Cells along each side of the terrain grid.
pub const CELLS: usize = 63;

/// Number of triangle corners in the terrain mesh: two triangles per cell.
pub const MESH_INDICES: usize = 23_814;

/// Largest terrain height, in either direction, the mesh accepts.
pub const MAX_HEIGHT: i64 = 1_000_000_000_000;

/// Number of trees in a world.
pub const TREE_COUNT: usize = 40;

/// One vertex of the terrain mesh: position, texture coordinates (both in
/// thousandths, rounded down) and the green part of its tint (thousandths).
#[derive(Clone, Copy, Debug, PartialEq, Eq, Structural)]
pub struct Vertex {
    pub x: i64,
    pub y: i64,
    pub z: i64,
    pub u: i64,
    pub v: i64,
    pub green: i64,
}

/// The terrain mesh: a grid of vertices, row by row along `x`, and the
/// triangle list over it.
#[derive(Debug)]
pub struct Terrain {
    pub vertices: Vec<Vertex>,
    pub indices: Vec<u16>,
}

/// A static tree. Foliage layers are `(height offset, radius)`, lowest first.
#[derive(Clone, Debug)]
pub struct Tree {
    pub x: i64,
    pub y: i64,
    pub z: i64,
    pub trunk_height: i64,
    pub base_radius: i64,
    pub lean_x: i64,
    pub lean_z: i64,
    pub foliage: Vec<(i64, i64)>,
}

/// Everything generated once per session.
#[derive(Debug)]
pub struct World {
    pub terrain: Terrain,
    pub trees: Vec<Tree>,
}

/// Vertex `i` of the grid, at grid column `i / 64` and row `i % 64`, with
/// terrain height `h`.
pub open spec fn grid_vertex(i: int, h: i64) -> Vertex {
    let gx = i / GRID as int;
    let gz = i % GRID as int;
    Vertex {
        x: (gx * UNIT) as i64,
        y: h,
        z: (gz * UNIT) as i64,
        u: (gx * UNIT / GRID as int) as i64,
        v: (gz * UNIT / GRID as int) as i64,
        green: (400 + scaled(h as int, 1, 10)) as i64,
    }
}

/// The mesh vertices over a grid of heights.
pub open spec fn mesh_vertices(heights: Seq<i64>) -> Seq<Vertex> {
    Seq::new(GRID_VERTICES as nat, |i: int| grid_vertex(i, heights[i]))
}

/// Offset from a cell's first vertex of corner `j` of its two triangles,
/// `(i, i + 1, i + 64)` and `(i + 1, i + 65, i + 64)`.
pub open spec fn corner(j: int) -> int {
    if j == 0 {
        0
    } else if j == 1 {
        1
    } else if j == 2 {
        GRID as int
    } else if j == 3 {
        1
    } else if j == 4 {
        GRID as int + 1
    } else {
        GRID as int
    }
}

/// Entry `p` of the triangle list: cells are taken row by row, six
/// corners each.
pub open spec fn mesh_index(p: int) -> int {
    let c = p / 6;
    let j = p % 6;
    (c / CELLS as int) * GRID as int + c % CELLS as int + corner(j)
}

/// Whether the terrain height field is within the range the mesh accepts.
pub open spec fn heights_ok(heights: Seq<i64>) -> bool {
    &&& heights.len() == GRID_VERTICES
    &&& forall|i: int| 0 <= i < heights.len() ==> -MAX_HEIGHT <= #[trigger] heights[i] <= MAX_HEIGHT
}

/// Builds the terrain mesh over `heights`, the terrain height at each grid
/// vertex, column by column.
pub fn generate_terrain(heights: &Vec<i64>) -> (t: Terrain)
    requires
        heights_ok(heights@),
    ensures
        t.vertices@ == mesh_vertices(heights@),
        t.indices@.len() == MESH_INDICES,
        forall|p: int| 0 <= p < MESH_INDICES ==> t.indices@[p] == mesh_index(p),
{
    let mut vertices: Vec<Vertex> = Vec::new();
    let mut i: usize = 0;
    while i < GRID_VERTICES
        invariant
            i <= GRID_VERTICES,
            heights_ok(heights@),
            vertices@ =~= mesh_vertices(heights@).take(i as int),
        decreases GRID_VERTICES - i,
    {
        let h = heights[i];
        let gx = (i / GRID) as i64;
        let gz = (i % GRID) as i64;
        let green = 400 + scale(h, 1, 10);
        vertices.push(
            Vertex { x: gx * UNIT, y: h, z: gz * UNIT, u: gx * UNIT / 64, v: gz * UNIT / 64, green },
        );
        i += 1;
    }
    let mut indices: Vec<u16> = Vec::new();
    let mut c: usize = 0;
    while c < CELLS * CELLS
        invariant
            c <= CELLS * CELLS,
            indices@.len() == 6 * c,
            forall|p: int| 0 <= p < 6 * c ==> indices@[p] == mesh_index(p),
        decreases CELLS * CELLS - c,
    {
        let q = c / CELLS;
        let r = c % CELLS;
        proof {
            lemma_cell(c as int);
        }
        let base = q * GRID + r;
        let b = base as u16;
        indices.push(b);
        indices.push(b + 1);
        indices.push(b + 64);
        indices.push(b + 1);
        indices.push(b + 65);
        indices.push(b + 64);
        c += 1;
    }
    Terrain { vertices, indices }
}

proof fn lemma_cell(c: int)
    requires
        0 <= c < CELLS * CELLS,
    ensures
        (c / CELLS as int) * GRID as int + c % CELLS as int + GRID as int + 1 < 0x1_0000,
        forall|j: int|
            0 <= j < 6 ==> #[trigger] mesh_index(6 * c + j) == (c / CELLS as int) * GRID as int + c
                % CELLS as int + corner(j),
{
    lemma_fundamental_div_mod(c, CELLS as int);
    assert forall|j: int| 0 <= j < 6 implies #[trigger] mesh_index(6 * c + j) == (c / CELLS as int)
        * GRID as int + c % CELLS as int + corner(j) by {
        lemma_fundamental_div_mod_converse(6 * c + j, 6, c, j);
    }
}

/// Foliage layer `i` of `count` over a trunk of height `trunk_height` and
/// base radius `base_radius`: raised by `0.5 + 0.2 i` of the trunk, with
/// radius `0.8 (count - i)` times the base radius.
pub open spec fn layer(trunk_height: int, base_radius: int, count: int, i: int) -> (i64, i64) {
    (((trunk_height * (5 + 2 * i)) / 10) as i64, ((base_radius * (count - i) * 8) / 10) as i64)
}

/// The foliage layers of a tree, lowest first.
pub fn foliage_layers(trunk_height: i64, base_radius: i64, count: i64) -> (r: Vec<(i64, i64)>)
    requires
        0 <= trunk_height <= 1_000_000_000,
        0 <= base_radius <= 1_000_000_000,
        0 <= count <= 100,
    ensures
        r@.len() == count,
        forall|i: int| 0 <= i < count ==> r@[i] == layer(trunk_height as int, base_radius as int, count as int, i),
{
    let mut out: Vec<(i64, i64)> = Vec::new();
    let mut i: i64 = 0;
    while i < count
        invariant
            0 <= i <= count <= 100,
            0 <= trunk_height <= 1_000_000_000,
            0 <= base_radius <= 1_000_000_000,
            out@.len() == i,
            forall|k: int| 0 <= k < i ==> out@[k] == layer(trunk_height as int, base_radius as int, count as int, k),
        decreases count - i,
    {
        assert(0 <= trunk_height * (5 + 2 * i) <= 1_000_000_000 * 205) by (nonlinear_arith)
            requires
                0 <= trunk_height <= 1_000_000_000,
                0 <= i <= 100,
        ;
        assert(0 <= base_radius * (count - i) <= 1_000_000_000 * 100) by (nonlinear_arith)
            requires
                0 <= base_radius <= 1_000_000_000,
                0 <= count - i <= 100,
        ;
        let height = trunk_height * (5 + 2 * i) / 10;
        let radius = base_radius * (count - i) * 8 / 10;
        out.push((height, radius));
        i += 1;
    }
    out
}

/// Whether `t` is a tree the generator may draw: on the playfield away from
/// its edge, with trunk, radius and lean in range and three or four foliage
/// layers. Its height is left to the host's ground sampler.
pub open spec fn is_drawn_tree(t: Tree) -> bool {
    &&& 2000 <= t.x < 62_000
    &&& 2000 <= t.z < 62_000
    &&& t.y == 0
    &&& 3000 <= t.trunk_height < 6000
    &&& 200 <= t.base_radius < 400
    &&& -100 <= t.lean_x < 100
    &&& -100 <= t.lean_z < 100
    &&& 3 <= t.foliage@.len() <= 4
    &&& forall|i: int|
        0 <= i < t.foliage@.len() ==> #[trigger] t.foliage@[i] == layer(
            t.trunk_height as int,
            t.base_radius as int,
            t.foliage@.len() as int,
            i,
        )
}

/// Draws the trees of a world from `rng`, in generation order.
pub fn generate_trees(rng: &mut StdRng) -> (trees: Vec<Tree>)
    ensures
        trees@.len() == TREE_COUNT,
        forall|i: int| 0 <= i < trees@.len() ==> is_drawn_tree(#[trigger] trees@[i]),
{
    let mut trees: Vec<Tree> = Vec::new();
    let mut n: usize = 0;
    while n < TREE_COUNT
        invariant
            n <= TREE_COUNT,
            trees@.len() == n,
            forall|i: int| 0 <= i < trees@.len() ==> is_drawn_tree(#[trigger] trees@[i]),
        decreases TREE_COUNT - n,
    {
        let x = draw_in(rng, 2000, 62_000);
        let z = draw_in(rng, 2000, 62_000);
        let trunk_height = draw_in(rng, 3000, 6000);
        let base_radius = draw_in(rng, 200, 400);
        let lean_x = draw_in(rng, -100, 100);
        let lean_z = draw_in(rng, -100, 100);
        let count = draw_in(rng, 3, 5);
        let foliage = foliage_layers(trunk_height, base_radius, count);
        let t = Tree { x, y: 0, z, trunk_height, base_radius, lean_x, lean_z, foliage };
        trees.push(t);
        n += 1;
    }
    trees
}

/// Generates a world: the terrain over `heights` and trees drawn from a
/// generator seeded with `seed`.
pub fn generate_world(seed: u64, heights: &Vec<i64>) -> (w: World)
    requires
        heights_ok(heights@),
    ensures
        w.terrain.vertices@ == mesh_vertices(heights@),
        w.terrain.indices@.len() == MESH_INDICES,
        forall|p: int| 0 <= p < MESH_INDICES ==> w.terrain.indices@[p] == mesh_index(p),
        w.trees@.len() == TREE_COUNT,
        forall|i: int| 0 <= i < w.trees@.len() ==> is_drawn_tree(#[trigger] w.trees@[i]),
{
    let terrain = generate_terrain(heights);
    let mut rng = seeded_rng(seed);
    let trees = generate_trees(&mut rng);
    World { terrain, trees }
}

} // verus!
