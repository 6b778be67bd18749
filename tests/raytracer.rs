use raytracer::camera::Ray;
use raytracer::image::{Image, Rgba};
use raytracer::render::render_frame;
use raytracer::trace::{nearest_hit, Intersection};

fn disc_shade(width: u32, height: u32) -> impl Fn(u32, u32) -> Rgba {
    move |x, y| {
        let ray = Ray::create_prime(x, y, width, height);
        let r = ray.sensor_scale as i64 / 5;
        if ray.sensor_x * ray.sensor_x + ray.sensor_y * ray.sensor_y < r * r {
            Rgba::from_hit(Some((102, 255, 102)))
        } else {
            Rgba::from_hit(None)
        }
    }
}

#[test]
fn test_can_render_scene() {
    let width: u32 = 800;
    let height: u32 = 600;
    let img: Image = render_frame(width, height, disc_shade(width, height));
    assert_eq!(width, img.width());
    assert_eq!(height, img.height());
}

#[test]
fn rendered_frame_has_hits_in_centre_and_background_in_corner() {
    let img = render_frame(80, 60, disc_shade(80, 60));
    assert_eq!(img.get_pixel(40, 30), Rgba::opaque(102, 255, 102));
    assert_eq!(img.get_pixel(0, 0), Rgba::background());
    assert_eq!(img.get_pixel(79, 59), Rgba::background());
}

#[test]
fn rendering_twice_gives_identical_frames() {
    let a = render_frame(40, 30, disc_shade(40, 30));
    let b = render_frame(40, 30, disc_shade(40, 30));
    for x in 0..40 {
        for y in 0..30 {
            assert_eq!(a.get_pixel(x, y), b.get_pixel(x, y));
        }
    }
}

#[test]
fn render_calls_shade_with_each_pixel_position() {
    let img = render_frame(3, 2, |x, y| Rgba::from_channels(x as u8, y as u8, 7, 255));
    for x in 0..3u32 {
        for y in 0..2u32 {
            assert_eq!(img.get_pixel(x, y), Rgba::from_channels(x as u8, y as u8, 7, 255));
        }
    }
}

#[test]
fn empty_frame_has_no_pixels() {
    let img = render_frame(0, 5, |_x, _y| Rgba::background());
    assert_eq!(img.width(), 0);
    assert_eq!(img.height(), 5);
}

#[test]
fn prime_ray_through_corner_pixels() {
    let r = Ray::create_prime(0, 0, 800, 600);
    assert_eq!((r.sensor_x, r.sensor_y, r.sensor_scale), (-799, 599, 600));
    let r = Ray::create_prime(799, 599, 800, 600);
    assert_eq!((r.sensor_x, r.sensor_y, r.sensor_scale), (799, -599, 600));
}

#[test]
fn prime_ray_through_centre_of_odd_image() {
    let r = Ray::create_prime(2, 1, 5, 3);
    assert_eq!((r.sensor_x, r.sensor_y, r.sensor_scale), (0, 0, 3));
}

#[test]
fn prime_ray_in_tall_image_scales_by_width() {
    let r = Ray::create_prime(0, 0, 600, 800);
    assert_eq!((r.sensor_x, r.sensor_y, r.sensor_scale), (-599, 799, 600));
}

#[test]
fn prime_ray_direction_is_unit_length() {
    let fov: f64 = 90.0;
    let k = (fov.to_radians() / 2.0).tan();
    for (x, y) in [(0u32, 0u32), (400, 300), (799, 599), (13, 577)] {
        let r = Ray::create_prime(x, y, 800, 600);
        let s = r.sensor_scale as f64;
        let (dx, dy, dz) = (r.sensor_x as f64 * k / s, r.sensor_y as f64 * k / s, -1.0f64);
        let len = (dx * dx + dy * dy + dz * dz).sqrt();
        let (ux, uy, uz) = (dx / len, dy / len, dz / len);
        assert!(((ux * ux + uy * uy + uz * uz).sqrt() - 1.0).abs() < 1e-9);
    }
}

#[test]
fn nearest_of_two_spheres_is_the_closer_one() {
    let hits = vec![Some(5.0f64.to_bits()), Some(3.0f64.to_bits())];
    let hit = nearest_hit(&hits).unwrap();
    assert_eq!(hit.element, 1);
    assert_eq!(f64::from_bits(hit.distance_key), 3.0);
}

#[test]
fn nearest_skips_misses() {
    let hits = vec![None, Some(4.0f64.to_bits()), None, Some(9.5f64.to_bits())];
    assert_eq!(nearest_hit(&hits), Some(Intersection::new(4.0f64.to_bits(), 1)));
}

#[test]
fn nearest_of_equal_distances_is_the_first() {
    let hits = vec![Some(7), Some(2), Some(2)];
    assert_eq!(nearest_hit(&hits), Some(Intersection::new(2, 1)));
}

#[test]
fn nearest_is_none_when_all_miss() {
    assert_eq!(nearest_hit(&vec![None, None]), None);
    assert_eq!(nearest_hit(&Vec::new()), None);
}

#[test]
fn nearest_handles_largest_key() {
    let hits = vec![Some(u64::MAX), None];
    assert_eq!(nearest_hit(&hits), Some(Intersection::new(u64::MAX, 0)));
}

#[test]
fn new_image_is_background() {
    let img = Image::new(4, 3);
    assert_eq!((img.width(), img.height()), (4, 3));
    assert_eq!(img.get_pixel(3, 2), Rgba::background());
    assert_eq!(Rgba::background(), Rgba::from_channels(0, 0, 0, 0));
}

#[test]
fn put_pixel_changes_only_that_pixel() {
    let mut img = Image::new(4, 3);
    let p = Rgba::from_channels(1, 2, 3, 4);
    img.put_pixel(2, 1, p);
    assert_eq!(img.get_pixel(2, 1), p);
    assert_eq!(img.get_pixel(1, 2), Rgba::background());
    assert_eq!(img.get_pixel(1, 1), Rgba::background());
}

#[test]
fn hit_pixels_are_opaque_and_misses_transparent() {
    assert_eq!(Rgba::from_hit(Some((10, 20, 30))), Rgba::from_channels(10, 20, 30, 255));
    assert_eq!(Rgba::opaque(10, 20, 30).alpha, 255);
    assert_eq!(Rgba::from_hit(None), Rgba::from_channels(0, 0, 0, 0));
}

#[test]
fn nearest_distance_ignores_element_order() {
    let hits = vec![Some(8), None, Some(3), Some(6)];
    let reversed: Vec<Option<u64>> = hits.iter().rev().cloned().collect();
    let a = nearest_hit(&hits).unwrap();
    let b = nearest_hit(&reversed).unwrap();
    assert_eq!(a.distance_key, 3);
    assert_eq!(b.distance_key, 3);
    assert_eq!((a.element, b.element), (2, 1));
}
