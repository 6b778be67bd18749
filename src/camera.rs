use vstd::prelude::*;

verus! {

/// The side of the image that sets the sensor's scale: the shorter one, so
/// that the longer side absorbs the aspect ratio.
pub open spec fn sensor_scale_of(width: nat, height: nat) -> nat {
    if width < height { width } else { height }
}

/// A primary ray: it leaves the camera origin, fixed at the world's zero
/// point, through the centre of one pixel of the sensor.
///
/// The sensor position is kept exact, as numerators over `sensor_scale`.
/// With `k = tan(fov / 2)`, the ray's direction is the normalised vector
/// `(sensor_x * k / sensor_scale, sensor_y * k / sensor_scale, -1)`: the
/// camera looks down the negative z axis.
#[derive(Clone, Copy, Debug, PartialEq, Eq, Structural)]
pub struct Ray {
    pub sensor_x: i64,
    pub sensor_y: i64,
    pub sensor_scale: u32,
}

impl Ray {
    /// The primary ray through the centre of pixel `(x, y)` of an image of
    /// `width` by `height` pixels.
    ///
    /// Pixel centres map to `2 * (x + 0.5) / width - 1` across and
    /// `1 - 2 * (y + 0.5) / height` down, and the longer side is stretched by
    /// the aspect ratio. Over the shorter side as common denominator this is
    /// `(2x + 1 - width, height - 2y - 1)`.
    pub fn create_prime(x: u32, y: u32, width: u32, height: u32) -> (r: Ray)
        requires
            x < width,
            y < height,
        ensures
            r.sensor_x == 2 * x + 1 - width,
            r.sensor_y == height - 2 * y - 1,
            r.sensor_scale == sensor_scale_of(width as nat, height as nat),
            r.sensor_scale > 0,
    {
        let sensor_x: i64 = 2 * (x as i64) + 1 - (width as i64);
        let sensor_y: i64 = (height as i64) - 2 * (y as i64) - 1;
        let sensor_scale: u32 = if width < height { width } else { height };
        Ray { sensor_x, sensor_y, sensor_scale }
    }
}

} // verus!
