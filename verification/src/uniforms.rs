use vstd::prelude::*;
use crate::mesh::MAX_OBJECTS;

verus! {

/// A field of one sphere of the shaders' sphere array.
#[derive(Clone, Copy, Debug, PartialEq, Eq, Structural)]
pub enum SphereField {
    Radius,
    Position,
    Color,
    Metal,
}

/// A uniform value handed to the shaders.
#[derive(Clone, Copy, Debug, PartialEq, Eq, Structural)]
pub enum Uniform {
    AspectRatio,
    CameraPosition,
    LightDir,
    Yaw,
    Pitch,
    AmbientLight,
    HardShadows,
    Time,
    Sphere { index: usize, field: SphereField },
}

/// The character of a decimal digit.
pub open spec fn digit_char(d: nat) -> char {
    if d == 0 {
        '0'
    } else if d == 1 {
        '1'
    } else if d == 2 {
        '2'
    } else if d == 3 {
        '3'
    } else if d == 4 {
        '4'
    } else if d == 5 {
        '5'
    } else if d == 6 {
        '6'
    } else if d == 7 {
        '7'
    } else if d == 8 {
        '8'
    } else {
        '9'
    }
}

/// `n` written in decimal, without leading zeros.
pub open spec fn decimal(n: nat) -> Seq<char>
    decreases n,
{
    if n < 10 {
        seq![digit_char(n)]
    } else {
        decimal(n / 10).push(digit_char(n % 10))
    }
}

/// The name of a sphere field in the shaders' sphere struct.
pub open spec fn sphere_field_name(f: SphereField) -> Seq<char> {
    match f {
        SphereField::Radius => "radius"@,
        SphereField::Position => "position"@,
        SphereField::Color => "color"@,
        SphereField::Metal => "metal"@,
    }
}

/// The name under which the shaders read a uniform.
pub open spec fn uniform_name(u: Uniform) -> Seq<char> {
    match u {
        Uniform::AspectRatio => "aspect_ratio"@,
        Uniform::CameraPosition => "camera_position"@,
        Uniform::LightDir => "light_dir"@,
        Uniform::Yaw => "yaw"@,
        Uniform::Pitch => "pitch"@,
        Uniform::AmbientLight => "ambient_light"@,
        Uniform::HardShadows => "hard_shadows"@,
        Uniform::Time => "time"@,
        Uniform::Sphere { index, field } => "u_spheres["@ + decimal(index as nat) + "]."@
            + sphere_field_name(field),
    }
}

/// The sphere fields in the order the shaders are handed them.
pub open spec fn sphere_field_at(k: int) -> SphereField {
    if k == 0 {
        SphereField::Radius
    } else if k == 1 {
        SphereField::Position
    } else if k == 2 {
        SphereField::Color
    } else {
        SphereField::Metal
    }
}

/// The uniforms other than the spheres, in the order the shaders are handed them.
pub open spec fn scalar_uniforms() -> Seq<Uniform> {
    seq![
        Uniform::AspectRatio,
        Uniform::CameraPosition,
        Uniform::LightDir,
        Uniform::Yaw,
        Uniform::Pitch,
        Uniform::AmbientLight,
        Uniform::HardShadows,
        Uniform::Time,
    ]
}

/// The fields of the first `count` spheres, sphere by sphere, each in field order.
pub open spec fn sphere_uniforms(count: nat) -> Seq<Uniform> {
    Seq::new(
        4 * count,
        |k: int| Uniform::Sphere { index: (k / 4) as usize, field: sphere_field_at(k % 4) },
    )
}

/// All the uniforms, in the order the shaders are handed them: the scalars,
/// then the four fields of every slot of the sphere array.
pub open spec fn uniform_order() -> Seq<Uniform> {
    scalar_uniforms() + sphere_uniforms(MAX_OBJECTS as nat)
}

/// Appends the decimal digits of `n` to `s`.
fn append_decimal(s: &mut String, n: usize)
    ensures
        final(s)@ == old(s)@ + decimal(n as nat),
    decreases n,
{
    if n >= 10 {
        append_decimal(s, n / 10);
    }
    let d = n % 10;
    let digit = if d == 0 {
        "0"
    } else if d == 1 {
        "1"
    } else if d == 2 {
        "2"
    } else if d == 3 {
        "3"
    } else if d == 4 {
        "4"
    } else if d == 5 {
        "5"
    } else if d == 6 {
        "6"
    } else if d == 7 {
        "7"
    } else if d == 8 {
        "8"
    } else {
        "9"
    };
    proof {
        reveal_strlit("0");
        reveal_strlit("1");
        reveal_strlit("2");
        reveal_strlit("3");
        reveal_strlit("4");
        reveal_strlit("5");
        reveal_strlit("6");
        reveal_strlit("7");
        reveal_strlit("8");
        reveal_strlit("9");
        assert(digit@ =~= seq![digit_char(d as nat)]);
    }
    s.append(digit);
    proof {
        if n >= 10 {
            assert(n % 10 == d);
        }
    }
}

/// The name under which the shaders read `u`.
pub fn uniform_name_of(u: Uniform) -> (name: String)
    ensures
        name@ == uniform_name(u),
{
    match u {
        Uniform::AspectRatio => String::from_str("aspect_ratio"),
        Uniform::CameraPosition => String::from_str("camera_position"),
        Uniform::LightDir => String::from_str("light_dir"),
        Uniform::Yaw => String::from_str("yaw"),
        Uniform::Pitch => String::from_str("pitch"),
        Uniform::AmbientLight => String::from_str("ambient_light"),
        Uniform::HardShadows => String::from_str("hard_shadows"),
        Uniform::Time => String::from_str("time"),
        Uniform::Sphere { index, field } => {
            let mut name = String::from_str("u_spheres[");
            append_decimal(&mut name, index);
            name.append("].");
            match field {
                SphereField::Radius => name.append("radius"),
                SphereField::Position => name.append("position"),
                SphereField::Color => name.append("color"),
                SphereField::Metal => name.append("metal"),
            }
            name
        },
    }
}

/// All the uniforms, in the order the shaders are handed them.
pub fn uniform_list() -> (list: Vec<Uniform>)
    ensures
        list@ == uniform_order(),
{
    let mut list: Vec<Uniform> = Vec::new();
    list.push(Uniform::AspectRatio);
    list.push(Uniform::CameraPosition);
    list.push(Uniform::LightDir);
    list.push(Uniform::Yaw);
    list.push(Uniform::Pitch);
    list.push(Uniform::AmbientLight);
    list.push(Uniform::HardShadows);
    list.push(Uniform::Time);
    assert(list@ =~= scalar_uniforms() + sphere_uniforms(0));
    let mut i: usize = 0;
    while i < MAX_OBJECTS
        invariant
            i <= MAX_OBJECTS,
            list@ == scalar_uniforms() + sphere_uniforms(i as nat),
        decreases MAX_OBJECTS - i,
    {
        let ghost before = list@;
        list.push(Uniform::Sphere { index: i, field: SphereField::Radius });
        list.push(Uniform::Sphere { index: i, field: SphereField::Position });
        list.push(Uniform::Sphere { index: i, field: SphereField::Color });
        list.push(Uniform::Sphere { index: i, field: SphereField::Metal });
        proof {
            let next = sphere_uniforms((i + 1) as nat);
            let prev = sphere_uniforms(i as nat);
            assert forall|k: int| 0 <= k < 4 * i implies #[trigger] next[k] == prev[k] by {}
            assert forall|j: int| 0 <= j < 4 implies #[trigger] next[4 * i + j] == list@[8 + 4 * i + j] by {
                assert((4 * i + j) / 4 == i);
                assert((4 * i + j) % 4 == j);
            }
            assert(list@ =~= scalar_uniforms() + next);
        }
        i = i + 1;
    }
    list
}

/// Whether `c` is a decimal digit.
pub open spec fn is_digit(c: char) -> bool {
    '0' <= c <= '9'
}

/// The digits of a number: at least one, all decimal digits, and at least
/// two for a number of ten or more.
proof fn lemma_decimal_shape(n: nat)
    ensures
        decimal(n).len() >= 1,
        n >= 10 ==> decimal(n).len() >= 2,
        forall|i: int| 0 <= i < decimal(n).len() ==> is_digit(#[trigger] decimal(n)[i]),
    decreases n,
{
    if n >= 10 {
        lemma_decimal_shape(n / 10);
        let d = decimal(n);
        assert forall|i: int| 0 <= i < d.len() implies is_digit(#[trigger] d[i]) by {
            if i < d.len() - 1 {
                assert(d[i] == decimal(n / 10)[i]);
            }
        }
    }
}

/// Different numbers are written differently.
proof fn lemma_decimal_injective(n: nat, m: nat)
    requires
        decimal(n) == decimal(m),
    ensures
        n == m,
    decreases n,
{
    lemma_decimal_shape(n);
    lemma_decimal_shape(m);
    if n >= 10 && m >= 10 {
        let dn = decimal(n);
        let dm = decimal(m);
        assert(dn.last() == digit_char(n % 10));
        assert(dm.last() == digit_char(m % 10));
        assert(n % 10 == m % 10);
        assert(dn.drop_last() =~= decimal(n / 10));
        assert(dm.drop_last() =~= decimal(m / 10));
        lemma_decimal_injective(n / 10, m / 10);
    } else if n < 10 && m < 10 {
        assert(decimal(n)[0] == digit_char(n));
        assert(decimal(m)[0] == digit_char(m));
    }
}

/// How the name of a sphere field is laid out: `u_spheres[`, the digits of
/// the index, `].` and the field name.
proof fn lemma_sphere_name_layout(index: usize, field: SphereField)
    ensures
        ({
            let name = uniform_name(Uniform::Sphere { index, field });
            let d = decimal(index as nat);
            &&& name.len() == 12 + d.len() + sphere_field_name(field).len()
            &&& name[0] == 'u'
            &&& forall|i: int| 0 <= i < d.len() ==> name[10 + i] == #[trigger] d[i]
            &&& name[10 + d.len() as int] == ']'
            &&& name.subrange(12 + d.len() as int, name.len() as int) == sphere_field_name(field)
        }),
{
    reveal_strlit("u_spheres[");
    reveal_strlit("].");
    let name = uniform_name(Uniform::Sphere { index, field });
    let d = decimal(index as nat);
    let f = sphere_field_name(field);
    assert(name == "u_spheres["@ + d + "]."@ + f);
    assert(name.subrange(12 + d.len() as int, name.len() as int) =~= f);
}

/// Different sphere fields have different names.
proof fn lemma_sphere_field_names_distinct(f: SphereField, g: SphereField)
    requires
        f != g,
    ensures
        sphere_field_name(f) != sphere_field_name(g),
{
    reveal_strlit("radius");
    reveal_strlit("position");
    reveal_strlit("color");
    reveal_strlit("metal");
    if sphere_field_name(f) == sphere_field_name(g) {
        assert(sphere_field_name(f)[0] == sphere_field_name(g)[0]);
    }
}

/// No two uniforms share a name, so the shaders read every uniform under a
/// name of its own.
pub proof fn lemma_uniform_names_distinct(u: Uniform, v: Uniform)
    requires
        u != v,
    ensures
        uniform_name(u) != uniform_name(v),
{
    reveal_strlit("aspect_ratio");
    reveal_strlit("camera_position");
    reveal_strlit("light_dir");
    reveal_strlit("yaw");
    reveal_strlit("pitch");
    reveal_strlit("ambient_light");
    reveal_strlit("hard_shadows");
    reveal_strlit("time");
    let a = uniform_name(u);
    let b = uniform_name(v);
    match (u, v) {
        (Uniform::Sphere { index: i, field: f }, Uniform::Sphere { index: j, field: g }) => {
            lemma_sphere_name_layout(i, f);
            lemma_sphere_name_layout(j, g);
            lemma_decimal_shape(i as nat);
            lemma_decimal_shape(j as nat);
            let di = decimal(i as nat);
            let dj = decimal(j as nat);
            if a == b {
                if di.len() < dj.len() {
                    assert(a[10 + di.len() as int] == b[10 + di.len() as int]);
                    assert(is_digit(dj[di.len() as int]));
                } else if dj.len() < di.len() {
                    assert(a[10 + dj.len() as int] == b[10 + dj.len() as int]);
                    assert(is_digit(di[dj.len() as int]));
                } else {
                    assert(di =~= dj) by {
                        assert forall|k: int| 0 <= k < di.len() implies di[k] == dj[k] by {
                            assert(a[10 + k] == b[10 + k]);
                        }
                    }
                    lemma_decimal_injective(i as nat, j as nat);
                    if f != g {
                        lemma_sphere_field_names_distinct(f, g);
                    }
                }
            }
        },
        (Uniform::Sphere { index: i, field: f }, _) => {
            lemma_sphere_name_layout(i, f);
            if a == b {
                assert(a[0] == b[0]);
            }
        },
        (_, Uniform::Sphere { index: j, field: g }) => {
            lemma_sphere_name_layout(j, g);
            if a == b {
                assert(a[0] == b[0]);
            }
        },
        _ => {
            if a == b {
                assert(a.len() == b.len());
                assert(a[0] == b[0]);
                assert(a[1] == b[1]);
            }
        },
    }
}

/// The number that a string of decimal digits spells, reading each digit
/// character by its distance from `'0'`.
pub open spec fn digits_value(s: Seq<char>) -> int
    decreases s.len(),
{
    if s.len() == 0 {
        0
    } else {
        10 * digits_value(s.drop_last()) + (s.last() as int - '0' as int)
    }
}

/// The digit characters are `'0'` to `'9'` in order: digit `d` is the
/// character `d` places after `'0'`.
pub proof fn lemma_digit_char_value(d: nat)
    requires
        d < 10,
    ensures
        digit_char(d) as int == '0' as int + d,
        is_digit(digit_char(d)),
{
}

/// The decimal writing of `n` is a non-empty string of digits, without a
/// leading zero unless `n` is zero, that reads back as `n`.
pub proof fn lemma_decimal_reads_back(n: nat)
    ensures
        decimal(n).len() >= 1,
        forall|i: int| 0 <= i < decimal(n).len() ==> is_digit(#[trigger] decimal(n)[i]),
        digits_value(decimal(n)) == n,
        decimal(n)[0] == '0' ==> n == 0,
    decreases n,
{
    lemma_decimal_shape(n);
    lemma_digit_char_value(n % 10);
    if n >= 10 {
        lemma_decimal_reads_back(n / 10);
        let d = decimal(n);
        assert(d.drop_last() =~= decimal(n / 10));
        assert(d[0] == decimal(n / 10)[0]);
        assert(d.last() == digit_char(n % 10));
        assert(digits_value(d) == 10 * digits_value(decimal(n / 10)) + (n % 10));
        assert(10 * (n / 10) + n % 10 == n);
    } else {
        lemma_digit_char_value(n);
        let d = decimal(n);
        assert(d.drop_last() =~= Seq::<char>::empty());
        assert(digits_value(Seq::<char>::empty()) == 0);
        assert(d.last() == digit_char(n));
    }
}

/// The name of a sphere field is `u_spheres[`, then digits that read back
/// as the sphere's index, then `].` and the field's own name.
pub proof fn lemma_sphere_name_reads_back(index: usize, field: SphereField)
    ensures
        exists|digits: Seq<char>|
            {
                &&& digits.len() >= 1
                &&& forall|i: int| 0 <= i < digits.len() ==> is_digit(#[trigger] digits[i])
                &&& #[trigger] digits_value(digits) == index
                &&& uniform_name(Uniform::Sphere { index, field }) == "u_spheres["@ + digits
                    + "]."@ + match field {
                    SphereField::Radius => "radius"@,
                    SphereField::Position => "position"@,
                    SphereField::Color => "color"@,
                    SphereField::Metal => "metal"@,
                }
            },
{
    lemma_decimal_reads_back(index as nat);
    let digits = decimal(index as nat);
    assert(digits_value(digits) == index);
}

/// The uniforms go to the shaders in this order: aspect ratio, camera
/// position, light direction, yaw, pitch, ambient light, hard shadows and
/// time, then for each of the 128 sphere slots in turn its radius, position,
/// colour and metal flag.
pub proof fn lemma_uniform_order()
    ensures
        uniform_order().len() == 8 + 4 * 128,
        uniform_order()[0] == Uniform::AspectRatio,
        uniform_order()[1] == Uniform::CameraPosition,
        uniform_order()[2] == Uniform::LightDir,
        uniform_order()[3] == Uniform::Yaw,
        uniform_order()[4] == Uniform::Pitch,
        uniform_order()[5] == Uniform::AmbientLight,
        uniform_order()[6] == Uniform::HardShadows,
        uniform_order()[7] == Uniform::Time,
        forall|i: int|
            0 <= i < 128 ==> {
                &&& #[trigger] uniform_order()[8 + 4 * i] == (Uniform::Sphere {
                    index: i as usize,
                    field: SphereField::Radius,
                })
                &&& uniform_order()[8 + 4 * i + 1] == (Uniform::Sphere {
                    index: i as usize,
                    field: SphereField::Position,
                })
                &&& uniform_order()[8 + 4 * i + 2] == (Uniform::Sphere {
                    index: i as usize,
                    field: SphereField::Color,
                })
                &&& uniform_order()[8 + 4 * i + 3] == (Uniform::Sphere {
                    index: i as usize,
                    field: SphereField::Metal,
                })
            },
{
    assert forall|i: int| 0 <= i < 128 implies {
        &&& #[trigger] uniform_order()[8 + 4 * i] == (Uniform::Sphere {
            index: i as usize,
            field: SphereField::Radius,
        })
        &&& uniform_order()[8 + 4 * i + 1] == (Uniform::Sphere {
            index: i as usize,
            field: SphereField::Position,
        })
        &&& uniform_order()[8 + 4 * i + 2] == (Uniform::Sphere {
            index: i as usize,
            field: SphereField::Color,
        })
        &&& uniform_order()[8 + 4 * i + 3] == (Uniform::Sphere {
            index: i as usize,
            field: SphereField::Metal,
        })
    } by {
        assert((4 * i) / 4 == i && (4 * i) % 4 == 0);
        assert((4 * i + 1) / 4 == i && (4 * i + 1) % 4 == 1);
        assert((4 * i + 2) / 4 == i && (4 * i + 2) % 4 == 2);
        assert((4 * i + 3) / 4 == i && (4 * i + 3) % 4 == 3);
    }
}

/// The names the shaders read the scalar uniforms under.
pub proof fn lemma_scalar_uniform_names()
    ensures
        uniform_name(Uniform::AspectRatio) == "aspect_ratio"@,
        uniform_name(Uniform::CameraPosition) == "camera_position"@,
        uniform_name(Uniform::LightDir) == "light_dir"@,
        uniform_name(Uniform::Yaw) == "yaw"@,
        uniform_name(Uniform::Pitch) == "pitch"@,
        uniform_name(Uniform::AmbientLight) == "ambient_light"@,
        uniform_name(Uniform::HardShadows) == "hard_shadows"@,
        uniform_name(Uniform::Time) == "time"@,
{
}

} // verus!
