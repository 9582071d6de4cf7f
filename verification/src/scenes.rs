//! What the built-in scenes show.

use vstd::prelude::*;
use vstd::string::*;

use crate::bits::{Num, Vec3};
use crate::changeset::Op;
use crate::defaults::worth;
use crate::demo;
use crate::description::{Texturable, Transform};
use crate::formula;
use crate::formula::{Answer, Formula};
use crate::many_lights;
use crate::mesh::Mesh;
use crate::path::FilePath;
use crate::text;

verus! {

// -- Names -----------------------------------------------------------------------------

/// Decimal text is digits: the last one counts what is left over tens, and those before
/// it the tens.
pub proof fn decimals_count(n: nat)
    ensures
        decimal_digit(text::decimal(n).last(), (n % 10) as int),
        n < 10 ==> text::decimal(n).len() == 1,
        n >= 10 ==> text::decimal(n).drop_last() == text::decimal(n / 10),
{
    reveal_strlit("0");
    reveal_strlit("1");
    reveal_strlit("2");
    reveal_strlit("3");
    reveal_strlit("4");
    reveal_strlit("5");
    reveal_strlit("6");
    reveal_strlit("7");
    reveal_strlit("8");
    reveal_strlit("9");
    if n >= 10 {
        assert(text::decimal(n).drop_last() =~= text::decimal(n / 10));
    }
}

/// The character is the digit.
pub open spec fn decimal_digit(c: char, d: int) -> bool {
    c as u32 == 48 + d
}

/// Every character of decimal text is a digit.
proof fn decimals_are_digits(n: nat, i: int)
    requires
        0 <= i < text::decimal(n).len(),
    ensures
        48 <= text::decimal(n)[i] as u32 <= 57,
    decreases n,
{
    decimals_count(n);
    if i < text::decimal(n).len() - 1 {
        decimals_are_digits(n / 10, i);
        assert(text::decimal(n)[i] == text::decimal(n).drop_last()[i]);
    } else {
        assert(text::decimal(n)[i] == text::decimal(n).last());
    }
}

/// What stands in different rows or columns goes by different names.
pub proof fn grid_names_differ(
    stem: Seq<char>,
    row: nat,
    column: nat,
    other_row: nat,
    other_column: nat,
)
    requires
        demo::grid_name(stem, row as int, column as int) == demo::grid_name(
            stem,
            other_row as int,
            other_column as int,
        ),
    ensures
        row == other_row,
        column == other_column,
{
    reveal_strlit("_r");
    reveal_strlit("c");
    let a = demo::grid_name(stem, row as int, column as int);
    let b = demo::grid_name(stem, other_row as int, other_column as int);
    let (r, s) = (text::decimal(row), text::decimal(other_row));
    let (c, d) = (text::decimal(column), text::decimal(other_column));
    let k = stem.len() as int + 2;
    assert('c' as u32 == 99);
    assert(a[k + r.len()] == 'c');
    assert(b[k + s.len()] == 'c');
    if r.len() < s.len() {
        decimals_are_digits(other_row, r.len() as int);
        assert(b[k + r.len()] == s[r.len() as int]);
    } else if s.len() < r.len() {
        decimals_are_digits(row, s.len() as int);
        assert(a[k + s.len()] == r[s.len() as int]);
    }
    assert(a.subrange(k, k + r.len()) =~= r);
    assert(b.subrange(k, k + s.len()) =~= s);
    text::spellings_differ(row, other_row);
    assert(a.skip(k + r.len() + 1) =~= c);
    assert(b.skip(k + s.len() + 1) =~= d);
    text::spellings_differ(column, other_column);
}

// -- Placements and surfaces -------------------------------------------------------------

/// The number is the nearest to `n` over `d`, on either side of zero.
pub open spec fn amounts(x: Num, n: int, d: int) -> bool {
    if n < 0 {
        worth(x.flipped(), -n, d)
    } else {
        worth(x, n, d)
    }
}

/// All three amount to the same.
pub open spec fn amounts_all(v: Vec3, n: int, d: int) -> bool {
    amounts(v.x, n, d) && amounts(v.y, n, d) && amounts(v.z, n, d)
}

/// The op places a mesh once with a material, under a name, and says nothing else.
pub open spec fn placing(op: Op, name: Seq<char>, mesh: Seq<char>, material: Seq<char>) -> bool {
    &&& op is Instance
    &&& op->Instance_0.name@ == name
    &&& op->Instance_0.mesh is Some && op->Instance_0.mesh->0@ == mesh
    &&& op->Instance_0.material is Some && op->Instance_0.material->0@ == material
    &&& op->Instance_0.transforms is Some && op->Instance_0.transforms->0@.len() == 1
    &&& op->Instance_0.curves is None && op->Instance_0.camera_visible is None
    &&& op->Instance_0.medium is None && op->Instance_0.interior_priority is None
}

/// Where the op's one copy stands.
pub open spec fn placed(op: Op) -> Transform {
    op->Instance_0.transforms->0@[0]
}

/// The op says a number of a material.
pub open spec fn said_number(value: Option<Texturable<Num>>, n: int, d: int) -> bool {
    value matches Some(Texturable::Constant(x)) && amounts(x, n, d)
}

/// The op says one gray of a material.
pub open spec fn said_gray(value: Option<Texturable<Vec3>>, n: int, d: int) -> bool {
    value matches Some(Texturable::Constant(v)) && amounts_all(v, n, d)
}

/// The chart of the demo scene, five by five. The sphere in a row and a column has a
/// surface of its own, a metal as far as its row and rough as far as its column;
/// it is of half a meter, rests on the floor, and stands six fifths of a meter from
/// its neighbours, with the middle one in the middle.
pub proof fn the_chart_is_swept<M: Fn(Formula) -> Answer>(
    maths: M,
    sky: FilePath,
    ops: Seq<Op>,
    row: int,
    column: int,
)
    requires
        ops.len() == 59,
        forall|i: int| 0 <= i < 59 ==> demo::demo_op(maths, sky, #[trigger] ops[i], i),
        0 <= row < 5,
        0 <= column < 5,
    ensures
        ({
            let i = 9 + 2 * (5 * row + column);
            let name = demo::grid_name("chart"@, row, column);
            let surface = *ops[i]->Material_0;
            &&& ops[i] is Material && surface.name@ == name
            &&& said_number(surface.base_metalness, row, 4)
            &&& said_number(surface.specular_roughness, column, 4)
            &&& surface.base_diffuse_roughness is Some && amounts(
                surface.base_diffuse_roughness->0,
                2,
                5,
            )
            &&& surface.base_color matches Some(Texturable::Constant(color)) && amounts(
                color.x,
                7,
                10,
            ) && amounts(color.y, 11, 50) && amounts(color.z, 2, 25)
            &&& surface.emission_luminance is None && surface.transmission_weight is None
            &&& placing(ops[i + 1], name, "sphere"@, name)
            &&& placed(ops[i + 1]) matches Transform::Trs { translate, rotate_degrees, scale } && {
                &&& amounts(translate.x, 6 * (column - 2), 5)
                &&& amounts(translate.y, 1, 2)
                &&& amounts(translate.z, 6 * (row - 2), 5)
                &&& amounts_all(rotate_degrees, 0, 1)
                &&& amounts_all(scale, 1, 2)
            }
        }),
{
    vstd::arithmetic::power2::lemma2_to64();
    let i = 9 + 2 * (5 * row + column);
    assert((i - 9) / 2 / 5 == row && (i - 9) / 2 % 5 == column && (i - 9) % 2 == 0);
    assert((i + 1 - 9) / 2 / 5 == row && (i + 1 - 9) / 2 % 5 == column && (i + 1 - 9) % 2 == 1);
    assert(demo::demo_op(maths, sky, ops[i], i));
    assert(demo::demo_op(maths, sky, ops[i + 1], i + 1));
    assert(ops[i + 1]->Instance_0.transforms->0@[0] == demo::chart_place(row, column));
}

/// What the demo scene has beside the chart: settings, a camera that looks at the middle
/// from above, the sky, a floor of twelve meters to every side, and a warm lamp that
/// only emits.
pub proof fn the_chart_is_lit<M: Fn(Formula) -> Answer>(maths: M, sky: FilePath, ops: Seq<Op>)
    requires
        ops.len() == 59,
        forall|i: int| 0 <= i < 59 ==> demo::demo_op(maths, sky, #[trigger] ops[i], i),
    ensures
        ops[0] is Settings && ops[0]->Settings_0.name@ == "main"@,
        ops[1] is Camera && ops[1]->Camera_0.name@ == "main"@,
        ({
            let camera = ops[1]->Camera_0;
            &&& camera.position matches Some(at) && amounts(at.x, 0, 1) && amounts(at.y, 11, 2)
                && amounts(at.z, 11, 1)
            &&& camera.look_at matches Some(to) && amounts_all(to, 0, 1)
            &&& camera.vfov_degrees matches Some(angle) && amounts(angle, 40, 1)
        }),
        ops[2] is Environment && ops[2]->Environment_0.path == Some(Some(sky)),
        ops[3] is Mesh && ops[3]->Mesh_0.name@ == "sphere"@,
        ops[4] is Mesh && ops[4]->Mesh_0.name@ == "plane"@,
        ops[5] is Material && ops[5]->Material_0.name@ == "floor"@,
        ({
            let floor = *ops[5]->Material_0;
            &&& said_gray(floor.base_color, 13, 20)
            &&& floor.base_diffuse_roughness is Some && amounts(
                floor.base_diffuse_roughness->0,
                1,
                10,
            )
            &&& said_number(floor.specular_roughness, 3, 20)
        }),
        placing(ops[6], "floor"@, "plane"@, "floor"@),
        placed(ops[6]) matches Transform::Trs { translate, rotate_degrees, scale } && amounts_all(
            translate,
            0,
            1,
        ) && amounts_all(rotate_degrees, 0, 1) && amounts_all(scale, 12, 1),
        ops[7] is Material && ops[7]->Material_0.name@ == "key"@,
        ({
            let lamp = *ops[7]->Material_0;
            &&& said_gray(lamp.base_color, 0, 1)
            &&& lamp.specular_weight is Some && amounts(lamp.specular_weight->0, 0, 1)
            &&& lamp.emission_color matches Some(Texturable::Constant(warm)) && amounts(
                warm.x,
                1,
                1,
            ) && amounts(warm.y, 17, 20) && amounts(warm.z, 3, 5)
            &&& lamp.emission_luminance is Some && amounts(lamp.emission_luminance->0, 18, 1)
        }),
        placing(ops[8], "key"@, "plane"@, "key"@),
        placed(ops[8]) matches Transform::Trs { translate, rotate_degrees, scale } && amounts(
            translate.x,
            -7,
            2,
        ) && amounts(translate.y, 27, 5) && amounts(translate.z, 1, 1) && amounts_all(scale, 3, 4),
{
    vstd::arithmetic::power2::lemma2_to64();
    assert(demo::demo_op(maths, sky, ops[0], 0));
    assert(demo::demo_op(maths, sky, ops[1], 1));
    assert(demo::demo_op(maths, sky, ops[2], 2));
    assert(demo::demo_op(maths, sky, ops[3], 3));
    assert(demo::demo_op(maths, sky, ops[4], 4));
    assert(demo::demo_op(maths, sky, ops[5], 5));
    assert(demo::demo_op(maths, sky, ops[6], 6));
    assert(demo::demo_op(maths, sky, ops[7], 7));
    assert(demo::demo_op(maths, sky, ops[8], 8));
    assert(ops[6]->Instance_0.transforms->0@[0] == demo::upright(
        Vec3::new(0, 0, 0),
        0x4140_0000,
    ));
    assert(ops[8]->Instance_0.transforms->0@[0] == demo::upright(
        Vec3::new(0xc060_0000, 0x40ac_cccd, 0x3f80_0000),
        0x3f40_0000,
    ));
}

/// The panel of many lights, sixteen by sixteen: the lamp in a row and a column hangs,
/// shines and is colored as that row and column say, emits and does nothing else,
/// and is turned over to look down.
pub proof fn the_panel_shines_down<M: Fn(Formula) -> Answer>(
    maths: M,
    ops: Seq<Op>,
    row: int,
    column: int,
)
    requires
        ops.len() == 536,
        forall|i: int| 0 <= i < 536 ==> many_lights::light_op(maths, #[trigger] ops[i], i),
        0 <= row < 16,
        0 <= column < 16,
    ensures
        ({
            let i = 24 + 2 * (16 * row + column);
            let name = demo::grid_name("light"@, row, column);
            let surface = *ops[i]->Material_0;
            let (r, c) = (row as u32, column as u32);
            &&& ops[i] is Material && surface.name@ == name
            &&& said_gray(surface.base_color, 0, 1)
            &&& surface.specular_weight is Some && amounts(surface.specular_weight->0, 0, 1)
            &&& surface.emission_color == Some(
                Texturable::Constant(formula::vector(maths, Formula::PanelColor(r, c))),
            )
            &&& surface.emission_luminance == Some(
                formula::number(maths, Formula::PanelLuminance(r, c)),
            )
            &&& placing(ops[i + 1], name, "plane"@, name)
            &&& placed(ops[i + 1]) matches Transform::Trs { translate, rotate_degrees, scale } && {
                &&& translate == formula::vector(maths, Formula::PanelPlace(r, c))
                &&& amounts(rotate_degrees.x, 180, 1) && amounts(rotate_degrees.y, 0, 1)
                    && amounts(rotate_degrees.z, 0, 1)
                &&& amounts_all(scale, 9, 50)
            }
        }),
{
    vstd::arithmetic::power2::lemma2_to64();
    let i = 24 + 2 * (16 * row + column);
    assert((i - 24) / 2 / 16 == row && (i - 24) / 2 % 16 == column && (i - 24) % 2 == 0);
    assert((i + 1 - 24) / 2 / 16 == row && (i + 1 - 24) / 2 % 16 == column && (i + 1 - 24) % 2
        == 1);
    assert(many_lights::light_op(maths, ops[i], i));
    assert(many_lights::light_op(maths, ops[i + 1], i + 1));
    assert(ops[i + 1]->Instance_0.transforms->0@[0] == many_lights::lamp_place(
        maths,
        row,
        column,
    ));
}

/// The cluster under the panel, three by three: matte spheres three meters apart, large
/// and small in turn, each resting on the floor.
pub proof fn the_cluster_rests_on_the_floor<M: Fn(Formula) -> Answer>(
    maths: M,
    ops: Seq<Op>,
    row: int,
    column: int,
)
    requires
        ops.len() == 536,
        forall|i: int| 0 <= i < 536 ==> many_lights::light_op(maths, #[trigger] ops[i], i),
        0 <= row < 3,
        0 <= column < 3,
    ensures
        ({
            let i = 6 + 2 * (3 * row + column);
            let name = demo::grid_name("occluder"@, row, column);
            let surface = *ops[i]->Material_0;
            let tenths = if (row + column) % 2 == 0 {
                9int
            } else {
                6
            };
            &&& ops[i] is Material && surface.name@ == name
            &&& said_gray(surface.base_color, 3, 5)
            &&& surface.specular_weight is Some && amounts(surface.specular_weight->0, 0, 1)
            &&& surface.emission_luminance is None && surface.emission_color is None
            &&& placing(ops[i + 1], name, "sphere"@, name)
            &&& placed(ops[i + 1]) matches Transform::Trs { translate, rotate_degrees, scale } && {
                &&& amounts(translate.x, 3 * (column - 1), 1)
                &&& amounts(translate.y, tenths, 10)
                &&& amounts(translate.z, 3 * (row - 1), 1)
                &&& amounts_all(rotate_degrees, 0, 1)
                &&& scale.x == translate.y && scale.y == translate.y && scale.z == translate.y
            }
        }),
{
    vstd::arithmetic::power2::lemma2_to64();
    let i = 6 + 2 * (3 * row + column);
    assert((i - 6) / 2 / 3 == row && (i - 6) / 2 % 3 == column && (i - 6) % 2 == 0);
    assert((i + 1 - 6) / 2 / 3 == row && (i + 1 - 6) / 2 % 3 == column && (i + 1 - 6) % 2 == 1);
    assert(many_lights::light_op(maths, ops[i], i));
    assert(many_lights::light_op(maths, ops[i + 1], i + 1));
    assert(ops[i + 1]->Instance_0.transforms->0@[0] == many_lights::occluder_place(row, column));
}

/// What the scene of many lights has beside them: settings, a camera, and a matte floor
/// of twelve meters to every side.
pub proof fn the_panel_has_a_floor<M: Fn(Formula) -> Answer>(maths: M, ops: Seq<Op>)
    requires
        ops.len() == 536,
        forall|i: int| 0 <= i < 536 ==> many_lights::light_op(maths, #[trigger] ops[i], i),
    ensures
        ops[0] is Settings && ops[0]->Settings_0.name@ == "main"@,
        ops[1] is Camera && ops[1]->Camera_0.name@ == "main"@,
        ({
            let camera = ops[1]->Camera_0;
            &&& camera.position matches Some(at) && amounts(at.x, 0, 1) && amounts(at.y, 5, 1)
                && amounts(at.z, 13, 1)
            &&& camera.look_at matches Some(to) && amounts(to.x, 0, 1) && amounts(to.y, 3, 5)
                && amounts(to.z, 0, 1)
            &&& camera.vfov_degrees matches Some(angle) && amounts(angle, 40, 1)
        }),
        ops[2] is Mesh && ops[2]->Mesh_0.name@ == "plane"@,
        ops[3] is Mesh && ops[3]->Mesh_0.name@ == "sphere"@,
        ops[4] is Material && ops[4]->Material_0.name@ == "floor"@,
        said_gray(ops[4]->Material_0.base_color, 11, 20),
        ops[4]->Material_0.specular_weight is Some && amounts(
            ops[4]->Material_0.specular_weight->0,
            0,
            1,
        ),
        placing(ops[5], "floor"@, "plane"@, "floor"@),
        placed(ops[5]) matches Transform::Trs { translate, rotate_degrees, scale } && amounts_all(
            translate,
            0,
            1,
        ) && amounts_all(rotate_degrees, 0, 1) && amounts_all(scale, 12, 1),
{
    vstd::arithmetic::power2::lemma2_to64();
    assert(many_lights::light_op(maths, ops[0], 0));
    assert(many_lights::light_op(maths, ops[1], 1));
    assert(many_lights::light_op(maths, ops[2], 2));
    assert(many_lights::light_op(maths, ops[3], 3));
    assert(many_lights::light_op(maths, ops[4], 4));
    assert(many_lights::light_op(maths, ops[5], 5));
    assert(ops[5]->Instance_0.transforms->0@[0] == demo::upright(
        Vec3::new(0, 0, 0),
        0x4140_0000,
    ));
}

/// The plane lies flat at height zero, reaches as far to every side, and faces up: its
/// two triangles share a diagonal and are counter-clockwise from above.
pub proof fn planes_lie_flat(mesh: Mesh)
    requires
        demo::is_plane(mesh),
    ensures
        mesh.positions@.len() == 4,
        mesh.triangles@.len() == 2,
        forall|i: int|
            0 <= i < 4 ==> {
                let p = #[trigger] mesh.positions@[i];
                &&& p.y.bits == 0
                &&& amounts(p.x, 1, 1) || amounts(p.x, -1, 1)
                &&& amounts(p.z, 1, 1) || amounts(p.z, -1, 1)
                &&& mesh.normals@[i].x.bits == 0 && mesh.normals@[i].y.bits == 0x3f80_0000
                    && mesh.normals@[i].z.bits == 0
            },
        ({
            let (p, q, r, s) = (
                mesh.positions@[0],
                mesh.positions@[1],
                mesh.positions@[2],
                mesh.positions@[3],
            );
            &&& q.x == p.x && q.z == p.z.flipped()
            &&& r.x == q.x.flipped() && r.z == q.z
            &&& s.x == r.x && s.z == r.z.flipped()
            &&& amounts(p.x, -1, 1) && amounts(p.z, -1, 1)
        }),
        mesh.triangles@[0]@ == seq![0u32, 1, 2],
        mesh.triangles@[1]@ == seq![0u32, 2, 3],
{
    vstd::arithmetic::power2::lemma2_to64();
    assert(mesh.triangles@[0]@ =~= seq![0u32, 1, 2]);
    assert(mesh.triangles@[1]@ =~= seq![0u32, 2, 3]);
}

} // verus!
