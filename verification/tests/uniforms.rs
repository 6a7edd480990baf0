use physics_simulation::uniforms::{uniform_list, uniform_name_of, SphereField, Uniform};
use std::collections::HashSet;

#[test]
fn scalar_names() {
    assert_eq!(uniform_name_of(Uniform::AspectRatio), "aspect_ratio");
    assert_eq!(uniform_name_of(Uniform::CameraPosition), "camera_position");
    assert_eq!(uniform_name_of(Uniform::LightDir), "light_dir");
    assert_eq!(uniform_name_of(Uniform::Yaw), "yaw");
    assert_eq!(uniform_name_of(Uniform::Pitch), "pitch");
    assert_eq!(uniform_name_of(Uniform::AmbientLight), "ambient_light");
    assert_eq!(uniform_name_of(Uniform::HardShadows), "hard_shadows");
    assert_eq!(uniform_name_of(Uniform::Time), "time");
}

#[test]
fn sphere_names() {
    let name = |index, field| uniform_name_of(Uniform::Sphere { index, field });
    assert_eq!(name(0, SphereField::Radius), "u_spheres[0].radius");
    assert_eq!(name(9, SphereField::Position), "u_spheres[9].position");
    assert_eq!(name(10, SphereField::Color), "u_spheres[10].color");
    assert_eq!(name(127, SphereField::Metal), "u_spheres[127].metal");
    assert_eq!(name(4096, SphereField::Metal), "u_spheres[4096].metal");
}

#[test]
fn list_order_and_length() {
    let list = uniform_list();
    assert_eq!(list.len(), 8 + 4 * 128);
    assert_eq!(list[0], Uniform::AspectRatio);
    assert_eq!(list[7], Uniform::Time);
    assert_eq!(list[8], Uniform::Sphere { index: 0, field: SphereField::Radius });
    assert_eq!(list[13], Uniform::Sphere { index: 1, field: SphereField::Position });
    assert_eq!(list[8 + 4 * 127 + 3], Uniform::Sphere { index: 127, field: SphereField::Metal });
}

#[test]
fn names_are_distinct() {
    let names: HashSet<String> = uniform_list().into_iter().map(uniform_name_of).collect();
    assert_eq!(names.len(), 8 + 4 * 128);
}
