use gl_rust::algebra::matrix4x4::Matrix4x4;
use gl_rust::algebra::scalar::Scalar;
use gl_rust::algebra::vector3::Vector3;
use gl_rust::topology::color::Rgb;
use gl_rust::topology::mesh::Mesh;
use gl_rust::topology::vertex::Vertex;
use gl_rust::video::render::Render;
use gl_rust::video::render::Weights;
use gl_rust::video::screen::Fragment;
use gl_rust::video::screen::Screen;
use std::cell::RefCell;

const CLEAR: Rgb = Rgb { r: 24, g: 24, b: 24 };

type Rows = [[f32; 4]; 4];

fn scalar(x: f32) -> Scalar {
    Scalar::from_bits(x.to_bits())
}

fn float(s: Scalar) -> f32 {
    f32::from_bits(s.to_bits())
}

fn vector(v: [f32; 3]) -> Vector3 {
    Vector3::create(scalar(v[0]), scalar(v[1]), scalar(v[2]))
}

fn rows(m: &Matrix4x4) -> Rows {
    let mut out = [[0.0f32; 4]; 4];
    for i in 0..4 {
        for j in 0..4 {
            out[i][j] = float(m.get(i, j));
        }
    }
    out
}

fn product(a: &Rows, b: &Rows) -> Rows {
    let mut out = [[0.0f32; 4]; 4];
    for i in 0..4 {
        for j in 0..4 {
            out[i][j] = a[i][0] * b[0][j] + a[i][1] * b[1][j] + a[i][2] * b[2][j] + a[i][3] * b[3][j];
        }
    }
    out
}

fn dot(a: [f32; 3], b: [f32; 3]) -> f32 {
    a[0] * b[0] + a[1] * b[1] + a[2] * b[2]
}

fn cross(a: [f32; 3], b: [f32; 3]) -> [f32; 3] {
    [a[1] * b[2] - a[2] * b[1], a[2] * b[0] - a[0] * b[2], a[0] * b[1] - a[1] * b[0]]
}

fn normalized(a: [f32; 3]) -> [f32; 3] {
    let length = dot(a, a).sqrt();
    if !(length > 0.0) {
        return a;
    }
    [a[0] / length, a[1] / length, a[2] / length]
}

/// The view matrix of a camera at `eye` that looks at `at`.
fn view(eye: [f32; 3], at: [f32; 3], up: [f32; 3]) -> Rows {
    let z = normalized([at[0] - eye[0], at[1] - eye[1], at[2] - eye[2]]);
    let x = normalized(cross(up, z));
    let y = cross(z, x);
    rows(&Matrix4x4::view(&vector(x), &vector(y), &vector(z), &vector([dot(x, eye), dot(y, eye), dot(z, eye)])))
}

fn perspective(fov_degrees: f32, aspect: f32, near: f32, far: f32) -> Rows {
    let t = (fov_degrees.to_radians() / 2.0).tan();
    rows(&Matrix4x4::perspective(
        scalar(1.0 / (aspect * t)),
        scalar(1.0 / t),
        scalar(far / (far - near)),
        scalar((-far * near) / (far - near)),
    ))
}

fn model(position: [f32; 3], degrees: f32, scale: [f32; 3]) -> Rows {
    let angle = degrees.to_radians();
    let translate = rows(&Matrix4x4::translate(scalar(position[0]), scalar(position[1]), scalar(position[2])));
    let rotate = rows(&Matrix4x4::rotate_y(scalar(angle.cos()), scalar(angle.sin())));
    let scale = rows(&Matrix4x4::scale(scalar(scale[0]), scalar(scale[1]), scalar(scale[2])));
    product(&product(&translate, &rotate), &scale)
}

fn transform(m: &Rows, v: &Vertex) -> Vertex {
    let p = [float(v.x), float(v.y), float(v.z), float(v.w)];
    let at = |i: usize| m[i][0] * p[0] + m[i][1] * p[1] + m[i][2] * p[2] + m[i][3] * p[3];
    let mut out = *v;
    out.x = scalar(at(0));
    out.y = scalar(at(1));
    out.z = scalar(at(2));
    out.w = scalar(at(3));
    out
}

/// The perspective divide and the map to the frame.
fn place(v: &Vertex, width: i32, height: i32) -> Vertex {
    let w = float(v.w);
    let mut out = *v;
    out.x = scalar(((float(v.x) / w + 1.0) * width as f32) / 2.0);
    out.y = scalar(((1.0 - float(v.y) / w) * height as f32) / 2.0);
    out.z = scalar(float(v.z) / w);
    out.w = scalar(1.0);
    out.color.r = scalar(float(v.color.r) / w);
    out.color.g = scalar(float(v.color.g) / w);
    out.color.b = scalar(float(v.color.b) / w);
    out.u = scalar(float(v.u) / w);
    out.v = scalar(float(v.v) / w);
    out.one = scalar(float(v.one) / w);
    out
}

fn byte(x: f32) -> u8 {
    (x * 255.0) as u8
}

/// Draws `mesh` as a camera at `eye` sees it, lit by ambient light only.
fn draw(render: &mut Render, mesh: &Mesh, turn: f32, eye: [f32; 3]) -> usize {
    let width = render.screen.width();
    let height = render.screen.height();
    let camera = view(eye, [eye[0], eye[1], eye[2] + 1.0], [0.0, 1.0, 0.0]);
    let lens = perspective(75.0, width as f32 / height as f32, 0.1, 1000.0);
    let all = product(&product(&lens, &camera), &model([0.0, 0.0, 0.0], turn, [1.0, 1.0, 1.0]));
    let clip: Vec<Vertex> = mesh.vertices.iter().map(|v| transform(&all, v)).collect();
    let screen: Vec<Vertex> = clip.iter().map(|v| place(v, width, height)).collect();
    let list = Render::process(mesh, &clip, &screen);
    for t in &list {
        let (ax, ay) = (float(t.a.x), float(t.a.y));
        let (bx, by) = (float(t.b.x), float(t.b.y));
        let (cx, cy) = (float(t.c.x), float(t.c.y));
        let area = (bx - ax) * (cy - ay) - (by - ay) * (cx - ax);
        let reciprocal = 1.0 / area;
        let (a, b, c) = (t.a, t.b, t.c);
        render.triangle(
            &a,
            &b,
            &c,
            scalar(area),
            |x, y| {
                let alpha = ((by - cy) * (x as f32 - cx) + (cx - bx) * (y as f32 - cy)) * reciprocal;
                let beta = ((cy - ay) * (x as f32 - cx) + (ax - cx) * (y as f32 - cy)) * reciprocal;
                Weights::create(scalar(alpha), scalar(beta), scalar(1.0 - alpha - beta))
            },
            |_, _, w| {
                let (alpha, beta, gamma) = (float(w.alpha), float(w.beta), float(w.gamma));
                let mix = |p: Scalar, q: Scalar, r: Scalar| float(p) * alpha + float(q) * beta + float(r) * gamma;
                let one = mix(a.one, b.one, c.one);
                let color = Rgb::create(
                    byte(mix(a.color.r, b.color.r, c.color.r) / one * 0.1),
                    byte(mix(a.color.g, b.color.g, c.color.g) / one * 0.1),
                    byte(mix(a.color.b, b.color.b, c.color.b) / one * 0.1),
                );
                Fragment { z: scalar(mix(a.z, b.z, c.z)), one: scalar(one), color }
            },
        );
    }
    list.len()
}

fn fresh(width: i32, height: i32) -> Render {
    let mut render = Render::create(Screen::create(width, height));
    render.clear(CLEAR);
    render
}

#[test]
fn cube_shows_in_the_middle_of_the_frame() {
    let mut render = fresh(800, 600);
    let cube = Mesh::cube();
    assert_eq!(cube.vertices.len(), 24);
    assert_eq!(cube.indices.len(), 36);
    assert_eq!(cube.parts.len(), 1);
    let submitted = draw(&mut render, &cube, 0.0, [0.0, 0.0, -3.0]);
    assert_eq!(submitted, 12);
    assert_ne!(render.screen.color(400, 300), CLEAR);
    assert!(float(render.screen.depth(400, 300)) < 1.0);
    for (x, y) in [(0, 0), (799, 0), (0, 599), (799, 599)] {
        assert_eq!(render.screen.color(x, y), CLEAR);
        assert_eq!(float(render.screen.depth(x, y)), 1.0);
    }
}

#[test]
fn cube_shows_its_front_side_only() {
    let mut render = fresh(800, 600);
    draw(&mut render, &Mesh::cube(), 0.0, [0.0, 0.0, -3.0]);
    // the front side is red: eight tenths of red and two of green and of blue, a tenth of it as ambient light
    let front = Rgb::create(byte(0.8 * 0.1), byte(0.2 * 0.1), byte(0.2 * 0.1));
    let mut shown = 0;
    for y in 0..600 {
        for x in 0..800 {
            let color = render.screen.color(x, y);
            if color != CLEAR {
                shown += 1;
                assert!(
                    (color.r as i32 - front.r as i32).abs() <= 1
                        && (color.g as i32 - front.g as i32).abs() <= 1
                        && (color.b as i32 - front.b as i32).abs() <= 1,
                    "{:?} at {:?}",
                    color,
                    (x, y)
                );
            }
        }
    }
    // the side is a square about the middle of the frame, a fifth of the height of the frame from it either way
    assert!(shown > 150 * 150 && shown < 170 * 170, "{}", shown);
    assert_ne!(render.screen.color(330, 230), CLEAR);
    assert_ne!(render.screen.color(470, 370), CLEAR);
    assert_eq!(render.screen.color(300, 300), CLEAR);
    assert_eq!(render.screen.color(400, 200), CLEAR);
}

#[test]
fn cube_turned_shows_in_any_order_of_its_sides() {
    let cube = Mesh::cube();
    let mut one = fresh(200, 150);
    draw(&mut one, &cube, 30.0, [0.0, 0.4, -3.0]);
    let mut turned = Mesh::cube();
    turned.indices.reverse();
    for face in turned.indices.chunks_mut(3) {
        face.reverse();
    }
    let mut other = fresh(200, 150);
    draw(&mut other, &turned, 30.0, [0.0, 0.4, -3.0]);
    let mut shown = 0;
    for y in 0..150 {
        for x in 0..200 {
            assert_eq!(one.screen.color(x, y), other.screen.color(x, y), "{:?}", (x, y));
            if one.screen.color(x, y) != CLEAR {
                shown += 1;
            }
        }
    }
    assert!(shown > 1000);
}

#[test]
fn cube_behind_the_camera_is_not_drawn() {
    let mut render = fresh(80, 60);
    let submitted = draw(&mut render, &Mesh::cube(), 0.0, [0.0, 0.0, 3.0]);
    assert_eq!(submitted, 0);
    for y in 0..60 {
        for x in 0..80 {
            assert_eq!(render.screen.color(x, y), CLEAR);
        }
    }
}

#[test]
fn cube_far_to_the_side_is_not_drawn() {
    let mut render = fresh(80, 60);
    let submitted = draw(&mut render, &Mesh::cube(), 0.0, [50.0, 0.0, -3.0]);
    assert_eq!(submitted, 0);
}

#[test]
fn identity_of_the_library_is_an_identity_of_the_product() {
    let identity = rows(&Matrix4x4::identity());
    let mut data = [[Scalar::zero(); 4]; 4];
    let mut state: u32 = 0x51ed_270b;
    for i in 0..4 {
        for j in 0..4 {
            state = state.wrapping_mul(1_664_525).wrapping_add(1_013_904_223);
            data[i][j] = scalar((state % 20_001) as f32 / 100.0 - 100.0);
        }
    }
    let m = rows(&Matrix4x4::from_rows(data));
    assert_eq!(product(&m, &identity), m);
    assert_eq!(product(&identity, &m), m);
    assert_eq!(product(&identity, &identity), identity);
}

#[test]
fn transforms_compose_projection_view_model() {
    let camera = view([0.0, 0.0, -3.0], [0.0, 0.0, -2.0], [0.0, 1.0, 0.0]);
    let lens = perspective(75.0, 800.0 / 600.0, 0.1, 1000.0);
    let all = product(&product(&lens, &camera), &model([0.0, 0.0, 0.0], 0.0, [1.0, 1.0, 1.0]));
    // the origin lies three units before the eye: its w is its depth, and its z lies between the planes
    let origin = transform(&all, &Vertex::blank());
    assert_eq!(float(origin.x), 0.0);
    assert_eq!(float(origin.y), 0.0);
    assert!((float(origin.w) - 3.0).abs() < 1e-6);
    assert!(float(origin.z) > 0.0 && float(origin.z) < float(origin.w));
    // what lies behind the eye has a negative w
    let mut behind = Vertex::blank();
    behind.z = scalar(-5.0);
    assert!(float(transform(&all, &behind).w) < 0.0);
    // the far plane maps to a depth of about one
    let mut far = Vertex::blank();
    far.z = scalar(997.0);
    let far = transform(&all, &far);
    assert!((float(far.z) / float(far.w) - 1.0).abs() < 1e-3);
}

#[test]
fn texture_coordinate_at_the_centroid_is_perspective_correct() {
    // three corners at depths one, two and four, with their attributes divided by the depth
    let corner = |x: f32, y: f32, w: f32, u: f32, v: f32| {
        let mut p = Vertex::blank();
        p.x = scalar(x);
        p.y = scalar(y);
        p.z = scalar(0.5);
        p.u = scalar(u / w);
        p.v = scalar(v / w);
        p.one = scalar(1.0 / w);
        p
    };
    let a = corner(0.0, 0.0, 1.0, 0.0, 0.0);
    let b = corner(0.0, 30.0, 2.0, 1.0, 0.0);
    let c = corner(30.0, 0.0, 4.0, 0.0, 1.0);
    let (ax, ay) = (float(a.x), float(a.y));
    let (bx, by) = (float(b.x), float(b.y));
    let (cx, cy) = (float(c.x), float(c.y));
    let area = (bx - ax) * (cy - ay) - (by - ay) * (cx - ax);
    assert!(area < 0.0);
    let reciprocal = 1.0 / area;
    let seen = RefCell::new(None);
    let mut render = fresh(40, 40);
    render.triangle(
        &a,
        &b,
        &c,
        scalar(area),
        |x, y| {
            let alpha = ((by - cy) * (x as f32 - cx) + (cx - bx) * (y as f32 - cy)) * reciprocal;
            let beta = ((cy - ay) * (x as f32 - cx) + (ax - cx) * (y as f32 - cy)) * reciprocal;
            Weights::create(scalar(alpha), scalar(beta), scalar(1.0 - alpha - beta))
        },
        |x, y, w| {
            let (alpha, beta, gamma) = (float(w.alpha), float(w.beta), float(w.gamma));
            let mix = |p: Scalar, q: Scalar, r: Scalar| float(p) * alpha + float(q) * beta + float(r) * gamma;
            let one = mix(a.one, b.one, c.one);
            let (u, v) = (mix(a.u, b.u, c.u), mix(a.v, b.v, c.v));
            if (x, y) == (10, 10) {
                *seen.borrow_mut() = Some((u / one, v / one, alpha, beta, gamma));
            }
            Fragment { z: scalar(mix(a.z, b.z, c.z)), one: scalar(one), color: Rgb::create(255, 255, 255) }
        },
    );
    let (u, v, alpha, beta, gamma) = seen.borrow().unwrap();
    // at the centroid the three weights are a third each
    assert!((alpha - 1.0 / 3.0).abs() < 1e-6 && (beta - 1.0 / 3.0).abs() < 1e-6 && (gamma - 1.0 / 3.0).abs() < 1e-6);
    // the correct value weighs each corner by the reciprocal of its depth
    let weight = 1.0 / 1.0 + 1.0 / 2.0 + 1.0 / 4.0;
    assert!((u - (1.0 / 2.0) / weight).abs() < 1e-3, "{}", u);
    assert!((v - (1.0 / 4.0) / weight).abs() < 1e-3, "{}", v);
    // the plain mean of the corners is off by far more
    assert!((u - 1.0 / 3.0).abs() > 1e-2);
    assert!((v - 1.0 / 3.0).abs() > 1e-2);
    assert_eq!(render.screen.color(10, 10), Rgb::create(255, 255, 255));
    assert_eq!(render.screen.color(35, 35), CLEAR);
}
