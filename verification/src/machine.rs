//! The state machine as mathematics: what a parser is, what one line is read
//! as, and what each rule makes of the two.

use crate::classify::{reading, Reading};
use crate::data::{pose_camera, rows_matrix, SlamView};
use crate::error::ParserError;
use vstd::prelude::*;

verus! {

/// Where a parser stands in the grammar of blocks.
pub enum StateView {
    /// In a pose block, with the rows read so far.
    StartPose(Seq<[u32; 4]>),
    /// In an intrinsic matrix block, with the rows read so far.
    StartMatK(Seq<[u32; 3]>),
    /// In no block; a pose, a point or a pixel may come.
    Anything,
    /// In no block, behind a point; a pose or a point may come, no pixel.
    PoseOrPoint,
}

/// The view of a parser.
pub struct ParserView {
    /// The state.
    pub s: StateView,
    /// The dataset gathered so far.
    pub sd: SlamView,
    /// The label that waits for the next pose.
    pub last_camera_id: Option<Seq<char>>,
}

impl StateView {
    /// A block in progress holds fewer than three rows.
    pub open spec fn wf(self) -> bool {
        match self {
            StateView::StartPose(rows) => rows.len() < 3,
            StateView::StartMatK(rows) => rows.len() < 3,
            _ => true,
        }
    }
}

impl ParserView {
    /// The state is well formed.
    pub open spec fn wf(self) -> bool {
        self.s.wf()
    }

    /// The parser before its first line.
    pub open spec fn initial() -> ParserView {
        ParserView { s: StateView::Anything, sd: SlamView::empty(), last_camera_id: None }
    }
}

/// The first rule: outside a pose block a camera label is kept for the next
/// pose, and the state stays.
pub open spec fn camera_id_rule(m: ParserView, camera_id: Option<Seq<char>>) -> Result<
    Option<ParserView>,
    ParserError,
> {
    match (m.s, camera_id) {
        (StateView::StartPose(_), _) => Ok(None),
        (_, Some(label)) => Ok(Some(ParserView { last_camera_id: Some(label), ..m })),
        (_, None) => Ok(None),
    }
}

/// The second rule: a row of four starts a pose block or goes on with one,
/// and the third row makes the camera, which takes the waiting label. In a
/// pose block any other line is an error; in an intrinsic block the rule
/// stands aside.
pub open spec fn four_floats_rule(m: ParserView, floats: Option<(u32, u32, u32, u32)>) -> Result<
    Option<ParserView>,
    ParserError,
> {
    match (m.s, floats) {
        (StateView::StartMatK(_), _) => Ok(None),
        (StateView::StartPose(_), None) => Err(ParserError::IncompletePose),
        (StateView::StartPose(rows), Some(t)) => {
            let rows = rows.push([t.0, t.1, t.2, t.3]);
            if rows.len() == 3 {
                Ok(
                    Some(
                        ParserView {
                            s: StateView::Anything,
                            sd: m.sd.with_camera(pose_camera(rows, m.last_camera_id)),
                            last_camera_id: None,
                        },
                    ),
                )
            } else {
                Ok(Some(ParserView { s: StateView::StartPose(rows), ..m }))
            }
        },
        (_, Some(t)) => Ok(
            Some(ParserView { s: StateView::StartPose(seq![[t.0, t.1, t.2, t.3]]), ..m }),
        ),
        (_, None) => Ok(None),
    }
}

/// The third rule: a row of three goes on with an intrinsic block, whose
/// third row replaces the matrix, or else is a point. In an intrinsic block
/// any other line is an error; in a pose block the rule stands aside.
pub open spec fn three_floats_rule(m: ParserView, floats: Option<(u32, u32, u32)>) -> Result<
    Option<ParserView>,
    ParserError,
> {
    match (m.s, floats) {
        (StateView::StartPose(_), _) => Ok(None),
        (StateView::StartMatK(_), None) => Err(ParserError::IncompleteK),
        (StateView::StartMatK(rows), Some(t)) => {
            let rows = rows.push([t.0, t.1, t.2]);
            if rows.len() == 3 {
                Ok(
                    Some(
                        ParserView {
                            s: StateView::Anything,
                            sd: m.sd.with_k(rows_matrix(rows)),
                            ..m
                        },
                    ),
                )
            } else {
                Ok(Some(ParserView { s: StateView::StartMatK(rows), ..m }))
            }
        },
        (_, Some(t)) => Ok(
            Some(
                ParserView { s: StateView::PoseOrPoint, sd: m.sd.with_point([t.0, t.1, t.2]), ..m },
            ),
        ),
        (_, None) => Ok(None),
    }
}

/// The fourth rule: in a block any line is an error; behind a point a pixel
/// is an error; else a pixel goes to the last camera.
pub open spec fn two_floats_rule(m: ParserView, floats: Option<(u32, u32)>) -> Result<
    Option<ParserView>,
    ParserError,
> {
    match (m.s, floats) {
        (StateView::StartPose(_), _) => Err(ParserError::IncompletePose),
        (StateView::StartMatK(_), _) => Err(ParserError::IncompleteK),
        (StateView::PoseOrPoint, Some(_)) => Err(ParserError::UnexpectedPixel),
        (StateView::Anything, Some(t)) => Ok(
            Some(ParserView { sd: m.sd.with_pixel([t.0, t.1]), ..m }),
        ),
        (_, None) => Ok(None),
    }
}

/// The fifth rule: the tag of the intrinsic matrix opens its block.
pub open spec fn k_tag_rule(m: ParserView, k_tag: bool) -> Result<Option<ParserView>, ParserError> {
    if k_tag {
        Ok(Some(ParserView { s: StateView::StartMatK(Seq::empty()), ..m }))
    } else {
        Ok(None)
    }
}

/// What the first of two rules to decide makes of a line: `first` where it
/// decides, else `next`.
pub open spec fn or_else(
    first: Result<Option<ParserView>, ParserError>,
    next: Result<Option<ParserView>, ParserError>,
) -> Result<Option<ParserView>, ParserError> {
    match first {
        Ok(None) => next,
        _ => first,
    }
}

/// The parser behind a line: what the first rule to decide makes of it, the
/// rules taken in their order, and the parser as it was where none decides.
#[verifier::opaque]
pub open spec fn step(m: ParserView, line: Reading) -> Result<ParserView, ParserError> {
    match or_else(
        camera_id_rule(m, line.camera_id),
        or_else(
            four_floats_rule(m, line.four_floats),
            or_else(
                three_floats_rule(m, line.three_floats),
                or_else(two_floats_rule(m, line.two_floats), k_tag_rule(m, line.k_tag)),
            ),
        ),
    ) {
        Ok(Some(next)) => Ok(next),
        Ok(None) => Ok(m),
        Err(e) => Err(e),
    }
}

/// Whether the line is a pixel that finds no camera to go to. On such a line
/// a parser cannot go on.
pub open spec fn needs_camera(m: ParserView, line: Reading) -> bool {
    &&& m.s is Anything
    &&& m.sd.cameras.len() == 0
    &&& line.camera_id is None
    &&& line.four_floats is None
    &&& line.three_floats is None
    &&& line.two_floats is Some
}

/// The parser behind a run of lines, of which `None` is a line that could not
/// be read: the first error, or the parser behind the last line.
pub open spec fn run(m: ParserView, lines: Seq<Option<Seq<char>>>) -> Result<
    ParserView,
    ParserError,
>
    decreases lines.len(),
{
    if lines.len() == 0 {
        Ok(m)
    } else {
        match lines[0] {
            None => Err(ParserError::ReadingLine),
            Some(line) => match step(m, reading(line)) {
                Ok(next) => run(next, lines.skip(1)),
                Err(e) => Err(e),
            },
        }
    }
}

/// Whether no line of the run, up to its first error, is a pixel that finds
/// no camera.
pub open spec fn runs_through(m: ParserView, lines: Seq<Option<Seq<char>>>) -> bool
    decreases lines.len(),
{
    if lines.len() == 0 {
        true
    } else {
        match lines[0] {
            None => true,
            Some(line) => !needs_camera(m, reading(line)) && match step(m, reading(line)) {
                Ok(next) => runs_through(next, lines.skip(1)),
                Err(_) => true,
            },
        }
    }
}

} // verus!
