//! The dataset that a parse builds, and its mathematical view. Every number in
//! it is the bit pattern of an IEEE 754 single precision value.

use vstd::prelude::*;

verus! {

/// The bit pattern of the value one.
pub const ONE: u32 = 0x3f80_0000;

/// A camera pose with the pixels seen from it.
pub struct CameraWithPoints {
    /// The rotation matrix, row by row.
    pub r_cw: [[u32; 3]; 3],
    /// The translation.
    pub t_cw: [u32; 3],
    /// The pixels, in the order in which they came.
    pub pixels: Vec<[u32; 2]>,
    /// The label that preceded the pose, if one did.
    pub camera_id: Option<String>,
}

/// The view of a `CameraWithPoints`.
pub struct CameraView {
    pub r_cw: [[u32; 3]; 3],
    pub t_cw: [u32; 3],
    pub pixels: Seq<[u32; 2]>,
    pub camera_id: Option<Seq<char>>,
}

/// The text of an optional string.
pub open spec fn text_of(label: Option<String>) -> Option<Seq<char>> {
    match label {
        Some(s) => Some(s@),
        None => None,
    }
}

impl View for CameraWithPoints {
    type V = CameraView;

    open spec fn view(&self) -> CameraView {
        CameraView {
            r_cw: self.r_cw,
            t_cw: self.t_cw,
            pixels: self.pixels@,
            camera_id: text_of(self.camera_id),
        }
    }
}

/// All that a parse has gathered.
pub struct SlamData {
    /// The cameras, in the order of their poses.
    pub cameras: Vec<CameraWithPoints>,
    /// The points, in the order in which they came.
    pub points: Vec<[u32; 3]>,
    /// The intrinsic matrix, row by row.
    pub k: [[u32; 3]; 3],
}

/// The view of a `SlamData`.
pub struct SlamView {
    pub cameras: Seq<CameraView>,
    pub points: Seq<[u32; 3]>,
    pub k: [[u32; 3]; 3],
}

impl View for SlamData {
    type V = SlamView;

    open spec fn view(&self) -> SlamView {
        SlamView {
            cameras: self.cameras@.map_values(|c: CameraWithPoints| c@),
            points: self.points@,
            k: self.k,
        }
    }
}

/// The identity matrix.
pub open spec fn identity() -> [[u32; 3]; 3] {
    [[ONE, 0, 0], [0, ONE, 0], [0, 0, ONE]]
}

/// The camera that three rows of a pose block make: the first three columns
/// are the rotation, the fourth is the translation.
pub open spec fn pose_camera(rows: Seq<[u32; 4]>, label: Option<Seq<char>>) -> CameraView {
    CameraView {
        r_cw: [
            [rows[0][0], rows[0][1], rows[0][2]],
            [rows[1][0], rows[1][1], rows[1][2]],
            [rows[2][0], rows[2][1], rows[2][2]],
        ],
        t_cw: [rows[0][3], rows[1][3], rows[2][3]],
        pixels: Seq::empty(),
        camera_id: label,
    }
}

/// The matrix that three rows of an intrinsic block make.
pub open spec fn rows_matrix(rows: Seq<[u32; 3]>) -> [[u32; 3]; 3] {
    [rows[0], rows[1], rows[2]]
}

impl CameraView {
    /// The camera with one more pixel.
    pub open spec fn with_pixel(self, pixel: [u32; 2]) -> CameraView {
        CameraView { pixels: self.pixels.push(pixel), ..self }
    }
}

impl SlamView {
    /// The dataset that a new parser holds.
    pub open spec fn empty() -> SlamView {
        SlamView { cameras: Seq::empty(), points: Seq::empty(), k: identity() }
    }

    /// The dataset with one more camera.
    pub open spec fn with_camera(self, camera: CameraView) -> SlamView {
        SlamView { cameras: self.cameras.push(camera), ..self }
    }

    /// The dataset with one more point.
    pub open spec fn with_point(self, point: [u32; 3]) -> SlamView {
        SlamView { points: self.points.push(point), ..self }
    }

    /// The dataset with another intrinsic matrix.
    pub open spec fn with_k(self, k: [[u32; 3]; 3]) -> SlamView {
        SlamView { k, ..self }
    }

    /// The dataset with one more pixel in its last camera.
    pub open spec fn with_pixel(self, pixel: [u32; 2]) -> SlamView
        recommends
            self.cameras.len() > 0,
    {
        let last = self.cameras.len() - 1;
        SlamView {
            cameras: self.cameras.update(last, self.cameras[last].with_pixel(pixel)),
            ..self
        }
    }
}

} // verus!
