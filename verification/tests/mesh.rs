use physics_simulation::mesh::{
    mesh_triangles, triangles_from_meshes, uniform_array, write_slots, Mesh, Triangle, MAX_OBJECTS,
};

fn blank() -> Triangle<i32> {
    Triangle { color: [0; 4], vertex0: [0; 3], vertex1: [0; 3], vertex2: [0; 3] }
}

fn square() -> Mesh<i32> {
    Mesh {
        positions: vec![0, 0, 0, 1, 0, 0, 1, 1, 0, 0, 1, 0],
        indices: vec![0, 1, 2, 0, 2, 3, 3],
    }
}

#[test]
fn mesh_triangles_follow_the_indices() {
    let t = mesh_triangles(&square(), [1, 2, 3, 4]);
    assert_eq!(t.len(), 2);
    assert_eq!(t[0].color, [1, 2, 3, 4]);
    assert_eq!(t[0].vertex0, [0, 0, 0]);
    assert_eq!(t[0].vertex1, [1, 0, 0]);
    assert_eq!(t[0].vertex2, [1, 1, 0]);
    assert_eq!(t[1].vertex0, [0, 0, 0]);
    assert_eq!(t[1].vertex1, [1, 1, 0]);
    assert_eq!(t[1].vertex2, [0, 1, 0]);
}

#[test]
fn empty_mesh_has_no_triangles() {
    let m: Mesh<i32> = Mesh { positions: vec![], indices: vec![7, 8] };
    assert!(mesh_triangles(&m, [0; 4]).is_empty());
}

#[test]
fn loading_fills_slots_and_leaves_the_rest_blank() {
    let slots = triangles_from_meshes(&vec![square()], [9, 9, 9, 9], blank());
    assert_eq!(slots.len(), MAX_OBJECTS);
    assert_eq!(slots[1].vertex2, [0, 1, 0]);
    assert_eq!(slots[1].color, [9, 9, 9, 9]);
    assert_eq!(slots[2].color, [0, 0, 0, 0]);
    assert_eq!(slots[MAX_OBJECTS - 1].vertex0, [0, 0, 0]);
}

#[test]
fn later_mesh_overwrites_the_first_slots() {
    let one = Mesh { positions: vec![5, 5, 5], indices: vec![0, 0, 0] };
    let slots = triangles_from_meshes(&vec![square(), one], [1, 1, 1, 1], blank());
    assert_eq!(slots[0].vertex0, [5, 5, 5]);
    assert_eq!(slots[0].vertex2, [5, 5, 5]);
    assert_eq!(slots[1].vertex1, [1, 1, 0]);
    assert_eq!(slots[2].color, [0, 0, 0, 0]);
}

#[test]
fn no_meshes_leaves_every_slot_blank() {
    let slots = triangles_from_meshes(&Vec::<Mesh<i32>>::new(), [1, 1, 1, 1], blank());
    assert!(slots.iter().all(|t| t.color == [0; 4]));
}

#[test]
fn uniform_array_pads_with_blank() {
    let slots = uniform_array(&vec![3u8, 4, 5], 0);
    assert_eq!(&slots[..4], &[3, 4, 5, 0]);
    assert_eq!(slots[MAX_OBJECTS - 1], 0);
    let full: Vec<u8> = (0..MAX_OBJECTS as u8).collect();
    let slots = uniform_array(&full, 200);
    assert_eq!(slots[MAX_OBJECTS - 1], (MAX_OBJECTS - 1) as u8);
}

#[test]
fn write_slots_keeps_the_tail() {
    let mut slots = [7u16; MAX_OBJECTS];
    write_slots(&mut slots, &vec![1, 2]);
    assert_eq!(&slots[..3], &[1, 2, 7]);
}
