use glam::{Mat4, Vec3};
use skeletal_anim::local_to_model::LocalToModelNode;
use skeletal_anim::skeleton::Skeleton;
use skeletal_anim::skinning::{initial_bone_matrices, skin, skin_all};

fn chain() -> Skeleton {
    Skeleton::new(
        vec![None, Some(0), Some(1), Some(0)],
        vec!["root".to_string(), "spine".to_string(), "head".to_string(), "tail".to_string()],
    )
    .unwrap()
}

#[test]
fn l2m_node_remembers_its_input() {
    let node = LocalToModelNode::new(&chain(), 9);
    assert_eq!(node, LocalToModelNode { joint_count: 4, input: 9 });
}

#[test]
fn propagate_chains_parents() {
    let locals: Vec<i64> = vec![1, 10, 100, 1000];
    let models = LocalToModelNode::propagate(&chain(), &locals, |p: &i64, l: &i64| p + l);
    assert_eq!(models, vec![1, 11, 111, 1001]);
}

#[test]
fn propagate_puts_the_parent_first() {
    let locals: Vec<(u8, u8)> = vec![(0, 0), (1, 1), (2, 2), (3, 3)];
    let models = LocalToModelNode::propagate(&chain(), &locals, |p: &(u8, u8), l: &(u8, u8)| {
        (p.1, l.1 * 10 + p.1)
    });
    assert_eq!(models, vec![(0, 0), (0, 10), (10, 30), (0, 30)]);
}

#[test]
fn propagate_root_keeps_its_local_matrix() {
    let locals = vec![
        Mat4::from_translation(Vec3::new(1.0, 0.0, 0.0)),
        Mat4::from_translation(Vec3::new(0.0, 2.0, 0.0)),
        Mat4::from_translation(Vec3::new(0.0, 0.0, 3.0)),
        Mat4::from_scale(Vec3::splat(2.0)),
    ];
    let models = LocalToModelNode::propagate(&chain(), &locals, |p: &Mat4, l: &Mat4| *p * *l);
    assert_eq!(models[0], locals[0]);
    assert_eq!(models[1], locals[0] * locals[1]);
    assert_eq!(models[2], models[1] * locals[2]);
    assert_eq!(models[3], models[0] * locals[3]);
    assert_eq!(models[2], Mat4::from_translation(Vec3::new(1.0, 2.0, 3.0)));
}

#[test]
fn propagate_of_no_joints_is_empty() {
    let none = Skeleton::new(vec![], vec![]).unwrap();
    let locals: Vec<i64> = Vec::new();
    assert!(LocalToModelNode::propagate(&none, &locals, |p: &i64, l: &i64| p + l).is_empty());
}

#[test]
fn skin_pairs_joint_by_joint() {
    let models: Vec<i64> = vec![2, 3, 5];
    let inverse: Vec<i64> = vec![7, 11, 13];
    assert_eq!(skin(&models, &inverse, |m: &i64, b: &i64| m * 100 + b), vec![207, 311, 513]);
}

#[test]
fn skin_multiplies_model_by_inverse_bind() {
    let models = vec![Mat4::from_translation(Vec3::new(1.0, 2.0, 3.0))];
    let inverse = vec![Mat4::from_translation(Vec3::new(-1.0, -2.0, -3.0))];
    assert_eq!(skin(&models, &inverse, |m: &Mat4, b: &Mat4| *m * *b), vec![Mat4::IDENTITY]);
}

#[test]
fn initial_bones_cover_every_instance() {
    assert_eq!(initial_bone_matrices(3, 2, 1u8), vec![1u8; 6]);
    assert_eq!(initial_bone_matrices(1, 5, 1u8), vec![1u8; 5]);
    assert!(initial_bone_matrices(0, 5, 1u8).is_empty());
    assert!(initial_bone_matrices(4, 0, 1u8).is_empty());
    assert_eq!(initial_bone_matrices(2, 3, Mat4::IDENTITY), vec![Mat4::IDENTITY; 6]);
}

#[test]
fn skin_all_lays_characters_out_in_order() {
    let models: Vec<Vec<i64>> = vec![vec![1, 2, 3], vec![4, 5, 6]];
    let inverse: Vec<i64> = vec![10, 20, 30];
    assert_eq!(
        skin_all(&models, &inverse, |m: &i64, b: &i64| m * 100 + b),
        vec![110, 220, 330, 410, 520, 630]
    );
    assert!(skin_all(&Vec::new(), &inverse, |m: &i64, b: &i64| m + b).is_empty());
    let none: Vec<Vec<i64>> = vec![vec![], vec![]];
    assert!(skin_all(&none, &Vec::new(), |m: &i64, b: &i64| m + b).is_empty());
}
