// The vector algebra, exercised on the fixed-point grid: one unit is 65536.
use raytrace::vec3::Vec3;

const F: i64 = 65536;

#[test]
fn test_new() {
    assert_eq!(
        Vec3::new(1 * F, 2 * F, 3 * F),
        Vec3 { x: 1 * F, y: 2 * F, z: 3 * F }
    )
}

#[test]
fn test_rgb() {
    // 255, 204 and 153 over 255: one, 0.8 and 0.6, truncated to the grid.
    assert_eq!(Vec3::rgb(255, 204, 153), Vec3 { x: 65536, y: 52428, z: 39321 })
}

#[test]
fn test_len() {
    assert_eq!(Vec3::new(3 * F, 4 * F, 0).len(), 5 * F)
}

#[test]
fn test_len_squared() {
    assert_eq!(Vec3::new(3 * F, 4 * F, 0).len_squared(), 25 * F)
}

#[test]
fn test_dot() {
    let u = Vec3::new(1 * F, 2 * F, 3 * F);
    let v = Vec3::new(4 * F, -1 * F, 0);
    assert_eq!(u.dot(v), 2 * F)
}

#[test]
fn test_cross() {
    let u = Vec3::new(1 * F, 0, 0);
    let v = Vec3::new(0, 1 * F, 0);
    assert_eq!(u.cross(v), Vec3::new(0, 0, 1 * F));

    let u = Vec3::new(1 * F, 2 * F, -3 * F);
    let v = Vec3::new(5 * F, 0, 1 * F);
    assert_eq!(u.cross(v), Vec3::new(2 * F, -16 * F, -10 * F));
}

#[test]
fn test_reflect() {
    let u = Vec3::new(-1 * F, -1 * F, 0);
    let n = Vec3::new(0, 1 * F, 0);
    assert_eq!(u.reflect(n), Vec3::new(-1 * F, 1 * F, 0));

    let u = Vec3::new(-1 * F, -1 * F, 0);
    let n = Vec3::new(0, 2 * F, 0);
    assert_eq!(u.reflect(n), Vec3::new(-1 * F, 1 * F, 0));
}

#[test]
fn test_refract() {}

#[test]
fn test_add() {
    let u = Vec3::new(1 * F, 2 * F, 3 * F);
    let v = Vec3::new(4 * F, 3 * F, 2 * F);
    assert_eq!(u.add(v), Vec3::new(5 * F, 5 * F, 5 * F));

    let u = Vec3::new(1 * F, 2 * F, 3 * F);
    let v = Vec3::new(-1 * F, -2 * F, -3 * F);
    assert_eq!(u.add(v), Vec3::new(0, 0, 0));
}

#[test]
fn test_mul_scalar() {
    let u = Vec3::new(0, 2 * F, -5 * F);
    assert_eq!(u.scale(2 * F), Vec3::new(0, 4 * F, -10 * F));
    assert_eq!(u.scale(2 * F), Vec3::new(0, 4 * F, -10 * F));
}

#[test]
fn test_mul_vec() {
    let u = Vec3::new(3 * F, 1 * F, -2 * F);
    let v = Vec3::new(0, -1 * F, 2 * F);
    assert_eq!(u.mul(v), Vec3::new(0, -1 * F, -4 * F));
    assert_eq!(v.mul(u), Vec3::new(0, -1 * F, -4 * F));
}

#[test]
fn test_div_scalar() {
    let u = Vec3::new(3 * F, 1 * F, -2 * F);
    assert_eq!(u.div(2 * F), Vec3::new(F + F / 2, F / 2, -1 * F));
}

#[test]
fn test_sub() {
    let v = Vec3::new(5 * F, 7 * F, 2 * F);
    let u = Vec3::new(7 * F, 5 * F, 2 * F);
    assert_eq!(v.sub(u), Vec3::new(-2 * F, 2 * F, 0))
}

#[test]
fn test_sub_assign() {
    let mut v = Vec3::new(5 * F, 7 * F, 2 * F);
    v = v.sub(Vec3::new(7 * F, 5 * F, 2 * F));
    assert_eq!(v, Vec3::new(-2 * F, 2 * F, 0))
}

#[test]
fn test_neg() {
    assert_eq!(Vec3::new(1 * F, 0, -2 * F).neg(), Vec3::new(-1 * F, 0, 2 * F))
}

#[test]
fn test_sum() {
    let a = vec![
        Vec3::new(1 * F, 2 * F, 3 * F),
        Vec3::new(2 * F, 1 * F, 3 * F),
        Vec3::new(0, 0, 0),
        Vec3::new(-1 * F, 2 * F, -6 * F),
    ];

    let sum = Vec3::sum(&a);

    assert_eq!(sum, Vec3::new(2 * F, 5 * F, 0))
}

#[test]
fn normalised_is_unit_on_axes() {
    let u = Vec3::new(0, 7 * F, 0).normalised();
    assert_eq!(u, Vec3::new(0, F, 0));
    let w = Vec3::new(-3 * F, 0, 0).normalised();
    assert_eq!(w, Vec3::new(-F, 0, 0));
}

#[test]
fn refract_straight_through() {
    // Equal indices bend nothing: the refracted ray keeps its direction.
    let v = Vec3::new(0, 0, 1 * F);
    let n = Vec3::new(0, 0, -1 * F);
    let r = v.refract(n, F, F).expect("no total reflection straight on");
    assert_eq!(r.z, F);
}
