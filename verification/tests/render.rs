// The rendering core, end to end: boxes, primitives, the index, materials
// and the integrator, all on the fixed-point grid (one unit is 65536).
use std::sync::Arc;

use raytrace::aabb::AABB;
use raytrace::bvh::BvhTree;
use raytrace::camera::Camera;
use raytrace::cli::parse_u32;
use raytrace::hit::hit_list;
use raytrace::hit::Hit;
use raytrace::material::Emissive;
use raytrace::material::Lambertian;
use raytrace::material::Material;
use raytrace::material::Metal;
use raytrace::material::fresnel_schlick;
use raytrace::mesh::Mesh;
use raytrace::pathtracer::PathTracer;
use raytrace::pdf::CosinePDF;
use raytrace::pdf::MixturePDF;
use raytrace::pdf::Pdf;
use raytrace::primitives::Sphere;
use raytrace::primitives::Triangle;
use raytrace::primitives::Vertex;
use raytrace::aabb::Axis;
use raytrace::quat::Quaternion;
use raytrace::ray::Ray;
use raytrace::surface::Surface;
use raytrace::texture::CheckeredTexture;
use raytrace::texture::ConstantTexture;
use raytrace::texture::ImageTexture;
use raytrace::texture::Texture;
use raytrace::texture::TextureFilter;
use raytrace::transform::Transform;
use raytrace::vec3::Vec3;
use raytrace::volume::ConstantVolume;

const F: i64 = 65536;

fn gray(level: u8) -> Arc<Texture> {
    Arc::new(Texture::Constant(ConstantTexture::new(Vec3::rgb(level, level, level))))
}

fn matte(level: u8) -> Arc<Material> {
    Arc::new(Material::Lambertian(Lambertian::new(gray(level), None)))
}

fn glow(level: u8) -> Arc<Material> {
    Arc::new(Material::Emissive(Emissive::new(gray(level))))
}

fn absorber() -> Arc<Material> {
    Arc::new(Material::Metal(Metal::new(gray(128), None, gray(128), gray(128))))
}

fn sphere(cx: i64, cy: i64, cz: i64, r: i64, mat: Arc<Material>) -> Sphere {
    Sphere { center: Vec3::new(cx, cy, cz), radius: r, material: mat }
}

fn unit_triangle(mat: Arc<Material>) -> Triangle {
    Triangle {
        a: Vertex::new(Vec3::new(0, 0, 0), None, None),
        b: Vertex::new(Vec3::new(F, 0, 0), None, None),
        c: Vertex::new(Vec3::new(0, F, 0), None, None),
        material: mat,
    }
}

// The union of two boxes contains both, is the tightest such box, and does
// not care about the order of its arguments.
#[test]
fn aabb_union_contains_and_is_tight() {
    let a = AABB::new(Vec3::new(0, 0, 0), Vec3::new(F, F, F));
    let b = AABB::new(Vec3::new(-F, 2 * F, 0), Vec3::new(F / 2, 3 * F, 4 * F));
    let u = AABB::surrounding_box(&a, &b);
    assert_eq!(u.start, Vec3::new(-F, 0, 0));
    assert_eq!(u.end, Vec3::new(F, 3 * F, 4 * F));
    // Contains both.
    assert!(u.start.x <= a.start.x && a.end.x <= u.end.x);
    assert!(u.start.y <= b.start.y && b.end.y <= u.end.y);
    // Tightest: every corner of the union comes from one of the arguments.
    assert!(u.start.x == a.start.x || u.start.x == b.start.x);
    assert!(u.end.y == a.end.y || u.end.y == b.end.y);
    // Commutative.
    let v = AABB::surrounding_box(&b, &a);
    assert_eq!(u, v);
    // Associative.
    let c = AABB::new(Vec3::new(0, -5 * F, 0), Vec3::new(0, 0, 9 * F));
    let left = AABB::surrounding_box(&AABB::surrounding_box(&a, &b), &c);
    let right = AABB::surrounding_box(&a, &AABB::surrounding_box(&b, &c));
    assert_eq!(left, right);
}

// The slab test on the unit box: entry at two, exit at three; a parallel
// ray outside one slab misses.
#[test]
fn slab_test_entry_and_exit() {
    let bb = AABB::new(Vec3::new(0, 0, 0), Vec3::new(F, F, F));
    let ray = Ray::new(Vec3::new(F / 2, F / 2, -2 * F), Vec3::new(0, 0, F));
    let span = bb.hit(&ray, 0, 100 * F).expect("the ray goes through the box");
    assert_eq!(span.0, 2 * F);
    assert_eq!(span.1, 3 * F);

    let parallel = Ray::new(Vec3::new(F / 2, 5 * F, -2 * F), Vec3::new(0, 0, F));
    assert!(bb.hit(&parallel, 0, 100 * F).is_none());
}

// The unit sphere at the origin, shot from five units out: front hit at
// four, normal pointing back at the camera.
#[test]
fn sphere_front_hit() {
    let s = sphere(0, 0, 0, F, matte(200));
    let ray = Ray::new(Vec3::new(0, 0, -5 * F), Vec3::new(0, 0, F));
    let hit = s.hit(&ray, 0, 100 * F).expect("the ray hits the sphere");
    assert_eq!(hit.ray_param, 4 * F);
    assert_eq!(hit.normal, Vec3::new(0, 0, -F));
    assert!(hit.material.is_some());
    assert!(hit.uv_coords.is_some());
}

// A ray into the triangle's centroid reports barycentric coordinates that
// are nonnegative and sum to at most one; a ray just beyond the hypotenuse
// misses.
#[test]
fn triangle_containment() {
    let t = unit_triangle(matte(99));
    let at_centroid = Ray::new(Vec3::new(F / 3, F / 3, -F), Vec3::new(0, 0, F));
    let hit = t.hit(&at_centroid, 0, 100 * F).expect("the centroid is inside");
    let (u, v) = hit.uv_coords.expect("a triangle hit carries coordinates");
    assert!(u >= 0 && v >= 0);
    assert!(u + v <= F);

    let outside = Ray::new(
        Vec3::new(F * 6 / 10, F * 6 / 10, -F),
        Vec3::new(0, 0, F),
    );
    assert!(t.hit(&outside, 0, 100 * F).is_none());
}

// The index answers exactly as the one-by-one scan does, over a spread of
// spheres and rays.
fn spread_of_spheres() -> Vec<Surface> {
    let coords: [(i64, i64, i64, i64); 9] = [
        (0, 0, 0, F),
        (3 * F, 0, 0, F),
        (-3 * F, F, 0, F / 2),
        (0, 4 * F, 2 * F, 2 * F),
        (5 * F, 5 * F, 5 * F, F),
        (-4 * F, -4 * F, -F, F),
        (2 * F, -3 * F, 4 * F, F / 4),
        (0, 0, 7 * F, 3 * F),
        (-6 * F, 2 * F, -5 * F, F),
    ];
    let mut objs: Vec<Surface> = Vec::new();
    for (i, &(x, y, z, r)) in coords.iter().enumerate() {
        objs.push(Surface::Sphere(sphere(x, y, z, r, matte(10 + 20 * i as u8))));
    }
    objs
}

#[test]
fn bvh_matches_brute_force() {
    let objs = spread_of_spheres();
    let tree = BvhTree::from_hittables(spread_of_spheres());
    let rays = [
        Ray::new(Vec3::new(0, 0, -20 * F), Vec3::new(0, 0, F)),
        Ray::new(Vec3::new(-10 * F, 0, 0), Vec3::new(F, F / 8, F / 16)),
        Ray::new(Vec3::new(10 * F, 10 * F, 10 * F), Vec3::new(-F, -F, -F)),
        Ray::new(Vec3::new(0, -10 * F, 0), Vec3::new(0, F, F / 3)),
        Ray::new(Vec3::new(0, 20 * F, 0), Vec3::new(0, F, 0)),
    ];
    for ray in rays.iter() {
        let from_tree = tree.hit(ray, 7, i64::MAX);
        let from_scan = hit_list(&objs, ray, 7, i64::MAX);
        match (from_tree, from_scan) {
            (Some(a), Some(b)) => {
                assert_eq!(a.ray_param, b.ray_param);
                assert_eq!(a.hit_position, b.hit_position);
                assert_eq!(a.normal, b.normal);
            },
            (None, None) => {},
            _ => panic!("the index and the scan disagree"),
        }
    }
}

// A fully absorptive first hit yields exactly its emission: black for a
// plain absorber, the glow for an emitter; a miss yields exactly the sky.
#[test]
fn absorption_is_black_beyond_emission() {
    let camera = Camera::new_virtual(
        Vec3::new(0, 0, -5 * F),
        Vec3::new(0, 0, F),
        F,
        64,
        64,
    );
    let sky = gray(40);
    let mut tracer = PathTracer::new(64, 64, 4, false, camera, sky);
    tracer.add_object(Surface::Sphere(sphere(0, 0, 0, F, absorber())));
    tracer.add_object(Surface::Sphere(sphere(4 * F, 0, 0, F, glow(222))));
    let sealed = tracer.finalise();
    let tree = sealed.bvh.as_ref().expect("the scene is sealed");

    // Into the absorber: black.
    let into_metal = Ray::new(Vec3::new(0, 0, -5 * F), Vec3::new(0, 0, F));
    let (color, _, _, _) = sealed.trace_color(&into_metal, tree);
    assert_eq!(color, Vec3::new(0, 0, 0));

    // Into the emitter: exactly its glow.
    let into_light = Ray::new(Vec3::new(4 * F, 0, -5 * F), Vec3::new(0, 0, F));
    let (color, _, _, _) = sealed.trace_color(&into_light, tree);
    assert_eq!(color, Vec3::rgb(222, 222, 222));

    // Past everything: exactly the sky.
    let into_sky = Ray::new(Vec3::new(0, 20 * F, 0), Vec3::new(0, F, 0));
    let (color, _, _, _) = sealed.trace_color(&into_sky, tree);
    assert_eq!(color, Vec3::rgb(40, 40, 40));
}

// Sealing the same primitives in any insertion order gives an index that
// reports the same hit parameter for every probe.
#[test]
fn finalize_order_invariant() {
    let spheres = [
        sphere(0, 0, 0, F, matte(10)),
        sphere(3 * F, 0, F, F, matte(60)),
        sphere(-2 * F, F, -F, F / 2, matte(110)),
        sphere(F, -3 * F, 2 * F, 2 * F, matte(160)),
        sphere(-4 * F, 4 * F, 4 * F, F, matte(210)),
    ];
    let fresh_tracer = || PathTracer::new(
        32,
        32,
        1,
        false,
        Camera::new_virtual(Vec3::new(0, 0, -9 * F), Vec3::new(0, 0, F), F, 32, 32),
        gray(0),
    );
    let mut forward = fresh_tracer();
    let mut backward = fresh_tracer();
    for s in spheres.iter() {
        forward.add_object(Surface::Sphere(s.clone()));
    }
    for s in spheres.iter().rev() {
        backward.add_object(Surface::Sphere(s.clone()));
    }
    let a = forward.finalise();
    let b = backward.finalise();
    let ta = a.bvh.as_ref().unwrap();
    let tb = b.bvh.as_ref().unwrap();
    let rays = [
        Ray::new(Vec3::new(0, 0, -9 * F), Vec3::new(0, 0, F)),
        Ray::new(Vec3::new(-8 * F, 0, 0), Vec3::new(F, F / 4, 0)),
        Ray::new(Vec3::new(0, 8 * F, 8 * F), Vec3::new(0, -F, -F)),
        Ray::new(Vec3::new(0, 9 * F, 0), Vec3::new(0, F, 0)),
    ];
    for ray in rays.iter() {
        let ha = ta.hit(ray, 7, i64::MAX);
        let hb = tb.hit(ray, 7, i64::MAX);
        match (ha, hb) {
            (Some(x), Some(y)) => assert_eq!(x.ray_param, y.ray_param),
            (None, None) => {},
            _ => panic!("insertion order changed the answer"),
        }
    }
}

#[test]
fn parse_u32_accepts_numerals() {
    assert_eq!(parse_u32(&Some("123".to_string())), Some(123));
    assert_eq!(parse_u32(&Some("+7".to_string())), Some(7));
    assert_eq!(parse_u32(&Some("0".to_string())), Some(0));
    assert_eq!(parse_u32(&Some("4294967295".to_string())), Some(u32::MAX));
}

#[test]
fn parse_u32_rejects_the_rest() {
    assert_eq!(parse_u32(&None), None);
    assert_eq!(parse_u32(&Some("".to_string())), None);
    assert_eq!(parse_u32(&Some("+".to_string())), None);
    assert_eq!(parse_u32(&Some("12a".to_string())), None);
    assert_eq!(parse_u32(&Some("-4".to_string())), None);
    assert_eq!(parse_u32(&Some("4294967296".to_string())), None);
    assert_eq!(parse_u32(&Some("99999999999999999999".to_string())), None);
}

#[test]
fn textures_sample_exactly() {
    let t = Texture::Constant(ConstantTexture::new(Vec3::rgb(9, 18, 27)));
    assert_eq!(t.texture((F / 3, F / 5)), Vec3::rgb(9, 18, 27));

    let check = Texture::Checkered(CheckeredTexture::new(gray(0), gray(255)));
    // At the origin both cells are zero: an even parity, the second texture.
    assert_eq!(check.texture((0, 0)), Vec3::rgb(255, 255, 255));

    // A two-by-two image: the corners come back exactly.
    let img = Texture::Image(ImageTexture::new(
        2,
        2,
        vec![
            Vec3::rgb(255, 0, 0),
            Vec3::rgb(0, 255, 0),
            Vec3::rgb(0, 0, 255),
            Vec3::rgb(255, 255, 255),
        ],
    ));
    assert_eq!(img.texture((0, 0)), Vec3::rgb(255, 0, 0));
    assert_eq!(img.texture((F, F)), Vec3::rgb(255, 255, 255));
}

#[test]
fn fresnel_schlick_edges() {
    // Straight-on view of a matched medium: only the base reflectance.
    assert_eq!(fresnel_schlick(0, F), F);
    // Grazing view of a matched medium: the fifth power takes over.
    assert_eq!(fresnel_schlick(F, 0), F);
}

#[test]
fn lambertian_sampling_matches_its_density() {
    let mat = matte(180);
    let s = sphere(0, 0, 0, F, mat);
    let ray = Ray::new(Vec3::new(0, 0, -5 * F), Vec3::new(0, 0, F));
    let hit = s.hit(&ray, 0, 100 * F).unwrap();
    let m = hit.material.clone().unwrap();
    let (albedo, _normal, scattered, pdf) = m.scattered(&ray, &hit).expect("diffuse scatters");
    // The sampling density equals the BRDF density of the drawn direction.
    assert_eq!(pdf, m.scattering_pdf(&ray, &hit, &scattered));
    assert_eq!(albedo, Vec3::rgb(180, 180, 180));

    // The absorbing variants never scatter.
    let metal_hit = sphere(0, 0, 0, F, absorber()).hit(&ray, 0, 100 * F).unwrap();
    let mm = metal_hit.material.clone().unwrap();
    assert!(mm.scattered(&ray, &metal_hit).is_none());
}

#[test]
fn emissive_glows_and_absorbs() {
    let s = sphere(0, 0, 0, F, glow(77));
    let ray = Ray::new(Vec3::new(0, 0, -5 * F), Vec3::new(0, 0, F));
    let hit = s.hit(&ray, 0, 100 * F).unwrap();
    let m = hit.material.clone().unwrap();
    assert_eq!(m.emitted(&hit), Vec3::rgb(77, 77, 77));
    assert!(m.scattered(&ray, &hit).is_none());
    assert_eq!(m.scattering_pdf(&ray, &hit, &ray), 0);
}

#[test]
fn camera_pinhole_starts_at_position() {
    let cam = Camera::new_virtual(Vec3::new(F, 2 * F, 3 * F), Vec3::new(0, 0, F), F, 64, 64);
    let ray = cam.get_ray(32 * F, 32 * F);
    assert_eq!(ray.origin, Vec3::new(F, 2 * F, 3 * F));
    assert!(ray.direction != Vec3::new(0, 0, 0));
}

#[test]
fn identity_rotation_keeps_vectors() {
    let id = Quaternion::new(0, 0, 0, F);
    let v = Vec3::new(3 * F, -2 * F, 5 * F);
    assert_eq!(id.rotate_vector(v), v);
    assert_eq!(id.unrotate_vector(v), v);
    assert_eq!(id.len_squared(), F);
}

#[test]
fn quarter_turn_rotates_x_to_y() {
    // sin and cos of half a right angle, on the grid.
    let q = Quaternion::new(0, 0, 46341, 46341).normalised();
    let r = q.rotate_vector(Vec3::new(F, 0, 0));
    assert!((r.y - F).abs() < 256, "y was {}", r.y);
    assert!(r.x.abs() < 256 && r.z.abs() < 256);
    // Undone by the inverse rotation.
    let back = q.unrotate_vector(r);
    assert!((back.x - F).abs() < 512 && back.y.abs() < 512);
}

#[test]
fn transform_shifts_hits() {
    let s = Surface::Sphere(sphere(0, 0, 0, F, matte(50)));
    let t = Transform::new(Box::new(s), Vec3::new(0, 3 * F, 0), Quaternion::new(0, 0, 0, F), F);
    // Aim where the sphere now stands.
    let ray = Ray::new(Vec3::new(0, 3 * F, -5 * F), Vec3::new(0, 0, F));
    let hit = t.hit(&ray, 0, 100 * F).expect("the moved sphere is hit");
    assert_eq!(hit.ray_param, 4 * F);
    assert_eq!(hit.hit_position.y, 3 * F);
    // The old place is empty.
    let old = Ray::new(Vec3::new(0, 0, -5 * F), Vec3::new(0, 0, F));
    assert!(t.hit(&old, 0, 100 * F).is_none());
}

#[test]
fn volume_scatters_inside_only() {
    let boundary = Box::new(Surface::Sphere(sphere(0, 0, 0, 2 * F, matte(1))));
    let fog = ConstantVolume::new(boundary, F, matte(130));
    let ray = Ray::new(Vec3::new(0, 0, -9 * F), Vec3::new(0, 0, F));
    // A short free path scatters inside the boundary.
    let h = fog.hit_with_distance(&ray, F).expect("the path ends inside");
    assert!(h.ray_param >= 0);
    assert!(h.uv_coords.is_none());
    // A long free path passes straight through.
    assert!(fog.hit_with_distance(&ray, 100 * F).is_none());
}

#[test]
fn mesh_offsets_its_faces() {
    let faces = vec![unit_triangle(matte(70)), {
        let mut t = unit_triangle(matte(70));
        t.a.position = Vec3::new(0, 0, F);
        t.b.position = Vec3::new(F, 0, F);
        t.c.position = Vec3::new(0, F, F);
        t
    }];
    let mesh = Mesh::new(Vec3::new(10 * F, 0, 0), faces);
    let at_new_place = Ray::new(Vec3::new(10 * F + F / 4, F / 4, -5 * F), Vec3::new(0, 0, F));
    let moved = Surface::Mesh(mesh.clone());
    let hit = moved.hit(&at_new_place, 0, 100 * F);
    assert!(hit.is_some());
    assert_eq!(hit.unwrap().ray_param, 5 * F);
    let at_old_place = Ray::new(Vec3::new(F / 4, F / 4, -5 * F), Vec3::new(0, 0, F));
    assert!(moved.hit(&at_old_place, 0, 100 * F).is_none());
}

#[test]
fn cosine_density_peaks_along_the_axis() {
    let p = Pdf::Cosine(CosinePDF::new(Vec3::new(0, 0, F)));
    // Straight along the axis: one over pi on the grid.
    assert_eq!(p.value_at(Vec3::new(0, 0, 3 * F)), 20860);
    // Behind the surface: nothing.
    assert_eq!(p.value_at(Vec3::new(0, 0, -3 * F)), 0);
    let m = Pdf::Mixture(MixturePDF::new(
        Box::new(Pdf::Cosine(CosinePDF::new(Vec3::new(0, 0, F)))),
        Box::new(Pdf::Cosine(CosinePDF::new(Vec3::new(0, 0, -F)))),
    ));
    // The mixture averages the two halves.
    assert_eq!(m.value_at(Vec3::new(0, 0, 3 * F)), 10430);
    let d = m.generate();
    assert!(d.x.abs() <= 1024 * F);
}

#[test]
fn unit_sphere_samples_stay_inside() {
    for _ in 0..64 {
        let v = Vec3::random_in_unit_sphere();
        assert!(v.len_squared() <= F);
    }
}

#[test]
fn render_pixel_stays_in_range() {
    let camera = Camera::new_virtual(Vec3::new(0, 0, -5 * F), Vec3::new(0, 0, F), F, 16, 16);
    let mut tracer = PathTracer::new(16, 16, 4, false, camera, gray(30));
    tracer.add_object(Surface::Sphere(sphere(0, 0, 0, F, matte(200))));
    tracer.add_object(Surface::Sphere(sphere(0, -100 * F, 0, 99 * F, glow(50))));
    let sealed = tracer.finalise();
    let zero = Vec3::new(0, 0, 0);
    for x in 0..4u32 {
        let (c, a, n, d) = sealed.render_pixel(x * 3, 7, 1, (zero, zero, zero, 0));
        for v in [c, a, n] {
            assert!(v.x.abs() <= 0x4000_0000);
            assert!(v.y.abs() <= 0x4000_0000);
            assert!(v.z.abs() <= 0x4000_0000);
        }
        assert!(d >= 0);
    }
}

#[test]
fn pixel_buffers_round_trip() {
    let camera = Camera::new_virtual(Vec3::new(0, 0, 0), Vec3::new(0, 0, F), F, 8, 8);
    let tracer = PathTracer::new(8, 8, 1, false, camera, gray(0));
    let mut buf = vec![0i64; 8 * 8 * 3];
    tracer.set_pixel(&mut buf, 3, 5, Vec3::new(F / 2, 2 * F, -7));
    let back = tracer.get_pixel(&buf, 3, 5);
    // Stored clamped into the unit interval.
    assert_eq!(back, Vec3::new(F / 2, F, 0));
}

#[test]
fn debug_view_marks_hits() {
    let objs = vec![
        Surface::Sphere(sphere(0, 0, 0, F, matte(10))),
        Surface::Sphere(sphere(3 * F, 0, 0, F, matte(20))),
        Surface::Sphere(sphere(-3 * F, 0, 0, F, matte(30))),
    ];
    let tree = BvhTree::from_hittables(objs);
    let ray = Ray::new(Vec3::new(0, 0, -5 * F), Vec3::new(0, 0, F));
    let (color, _, _, depth) = tree.debug_hit(tree.root, &ray, 7, i64::MAX);
    assert!(color != Vec3::new(0, 0, 0));
    assert!(depth >= 0);
    let miss = Ray::new(Vec3::new(0, 50 * F, 0), Vec3::new(0, F, 0));
    let (mc, _, _, md) = tree.debug_hit(tree.root, &miss, 7, i64::MAX);
    assert_eq!(mc, Vec3::new(0, 0, 0));
    assert_eq!(md, 0);
}

#[test]
fn longest_axis_picks_the_widest() {
    let wide_x = AABB::new(Vec3::new(0, 0, 0), Vec3::new(9 * F, F, F));
    assert!(matches!(wide_x.longest_axis(), Axis::X));
    let wide_y = AABB::new(Vec3::new(0, 0, 0), Vec3::new(F, 9 * F, F));
    assert!(matches!(wide_y.longest_axis(), Axis::Y));
    let cube = AABB::new(Vec3::new(0, 0, 0), Vec3::new(F, F, F));
    assert!(matches!(cube.longest_axis(), Axis::Z));
    assert_eq!(cube.center(), Vec3::new(F / 2, F / 2, F / 2));
}

#[test]
fn node_accessors_walk_the_arena() {
    // The filter choices exist for scene descriptions; lookups interpolate.
    assert!(matches!(TextureFilter::Linear, TextureFilter::Linear));
    let objs = vec![
        Surface::Sphere(sphere(0, 0, 0, F, matte(10))),
        Surface::Sphere(sphere(4 * F, 0, 0, F, matte(20))),
        Surface::Sphere(sphere(8 * F, 0, 0, F, matte(30))),
        Surface::Sphere(sphere(12 * F, 0, 0, F, matte(40))),
    ];
    let tree = BvhTree::from_hittables(objs);
    // The root always stands at the first slot of the arena.
    assert_eq!(tree.root, 0);
    let root = &tree.nodes[0];
    assert_eq!(root.count, 0);
    let l = tree.get_left_node_index(tree.root);
    let r = tree.get_right_node_index(tree.root);
    assert!(l != r && l < tree.nodes.len() && r < tree.nodes.len());
    assert!(l != 0 && r != 0);
}

#[test]
fn camera_dials_update_the_optics() {
    let pos = Vec3::new(0, 0, 0);
    let dir = Vec3::new(0, 0, F);
    let mut cam = Camera::new_physical(
        pos,
        dir,
        32,
        32,
        raytrace::camera::Focus::Distance(2 * F),
        35 * F,
        8,
        raytrace::camera::CropFactor::full_format(),
    );
    let before = cam.aperture;
    cam.set_fstop(10);
    assert!(cam.aperture < before, "more stops close the aperture");
    cam.set_focal_length(50 * F);
    assert_eq!(cam.focal_length, 50 * F);
    cam.set_crop_factor(raytrace::camera::CropFactor::apsc());
    assert!(cam.tan_half_fov > 0);
    cam.set_focus_dist(raytrace::camera::Focus::AutoFocus);
    assert!(matches!(cam.focus, raytrace::camera::Focus::AutoFocus));
    cam.set_aperture(0);
    let ray = cam.get_ray(16 * F, 16 * F);
    assert_eq!(ray.origin, pos);
}

#[test]
fn transformed_objects_join_the_scene() {
    // A sphere moved up by a transform inside the indexed scene: the index
    // prunes and answers through the transform like any other object.
    let inner = Surface::Sphere(sphere(0, 0, 0, F, matte(120)));
    let lifted = Transform::new(
        Box::new(inner),
        Vec3::new(0, 3 * F, 0),
        Quaternion::new(0, 0, 0, F),
        F,
    );
    let objs = vec![
        Surface::Transformed(lifted),
        Surface::Sphere(sphere(6 * F, 0, 0, F, matte(10))),
    ];
    let tree = BvhTree::from_hittables(objs);
    let at_new_place = Ray::new(Vec3::new(0, 3 * F, -5 * F), Vec3::new(0, 0, F));
    let hit = tree.hit(&at_new_place, 7, i64::MAX).expect("the moved sphere is found");
    assert_eq!(hit.ray_param, 4 * F);
    assert_eq!(hit.hit_position.y, 3 * F);
    let at_old_place = Ray::new(Vec3::new(0, 0, -5 * F), Vec3::new(0, 0, F));
    assert!(tree.hit(&at_old_place, 7, i64::MAX).is_none());
}
