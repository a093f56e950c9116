//! What holds of every parse.

use crate::classify::{
    camera_label, four_floats, has_k_tag, pixel_row, reading, three_floats, two_floats, Reading,
};
use crate::classify_proofs::{
    lemma_camera_label_padding, lemma_k_tag_is_no_row, lemma_k_tag_padding,
    lemma_number_row_count, lemma_number_row_no_label, lemma_number_row_padding,
    lemma_pixel_row_is_no_row, lemma_pixel_row_no_label, lemma_pixel_row_padding,
};
use crate::data::{pose_camera, CameraView, SlamView};
use crate::error::ParserError;
use crate::machine::{needs_camera, run, runs_through, step, ParserView, StateView};
use crate::scan::{is_line_end, is_terminator};
use crate::scan_proofs::{all_blank, plain};
use vstd::prelude::*;

verus! {

/// A run of lines that could all be read.
pub open spec fn read_lines(lines: Seq<Seq<char>>) -> Seq<Option<Seq<char>>> {
    lines.map_values(|l: Seq<char>| Some(l))
}

/// The row of a line of four numbers.
pub open spec fn pose_row(line: Seq<char>) -> [u32; 4] {
    let t = four_floats(line)->0;
    [t.0, t.1, t.2, t.3]
}

/// The point of a line of three numbers.
pub open spec fn point_of(line: Seq<char>) -> [u32; 3] {
    let t = three_floats(line)->0;
    [t.0, t.1, t.2]
}

/// The pixel of a pixel line.
pub open spec fn pixel_of(line: Seq<char>) -> [u32; 2] {
    let t = two_floats(line)->0;
    [t.0, t.1]
}

/// The cameras that pose blocks make, three lines each, of which the first
/// takes `label`.
pub open spec fn block_cameras(lines: Seq<Seq<char>>, label: Option<Seq<char>>) -> Seq<
    CameraView,
> {
    Seq::new(
        lines.len() / 3,
        |i: int|
            pose_camera(
                seq![
                    pose_row(lines[3 * i]),
                    pose_row(lines[3 * i + 1]),
                    pose_row(lines[3 * i + 2]),
                ],
                if i == 0 {
                    label
                } else {
                    None
                },
            ),
    )
}

/// Whether the parser stands in no block.
pub open spec fn in_no_block(m: ParserView) -> bool {
    m.s is Anything || m.s is PoseOrPoint
}

/// A line of four numbers is a line of nothing else.
pub proof fn law_four_floats_alone(line: Seq<char>)
    requires
        four_floats(line) is Some,
    ensures
        camera_label(line) is None,
        three_floats(line) is None,
        two_floats(line) is None,
{
    reveal(four_floats);
    reveal(three_floats);
    reveal(two_floats);
    lemma_number_row_no_label(line, 4);
    lemma_number_row_count(line, 4, 3);
    if pixel_row(line) is Some {
        lemma_pixel_row_is_no_row(line, 4);
    }
}

/// A line of three numbers is a line of nothing else.
pub proof fn law_three_floats_alone(line: Seq<char>)
    requires
        three_floats(line) is Some,
    ensures
        camera_label(line) is None,
        four_floats(line) is None,
        two_floats(line) is None,
{
    reveal(four_floats);
    reveal(three_floats);
    reveal(two_floats);
    lemma_number_row_no_label(line, 3);
    lemma_number_row_count(line, 3, 4);
    if pixel_row(line) is Some {
        lemma_pixel_row_is_no_row(line, 3);
    }
}

/// A pixel line is a line of nothing else.
pub proof fn law_two_floats_alone(line: Seq<char>)
    requires
        two_floats(line) is Some,
    ensures
        camera_label(line) is None,
        four_floats(line) is None,
        three_floats(line) is None,
{
    reveal(four_floats);
    reveal(three_floats);
    reveal(two_floats);
    lemma_pixel_row_no_label(line);
    lemma_pixel_row_is_no_row(line, 4);
    lemma_pixel_row_is_no_row(line, 3);
}

/// A run goes as its first line goes, and then as the rest goes.
pub proof fn law_run_first(m: ParserView, lines: Seq<Seq<char>>)
    requires
        lines.len() > 0,
    ensures
        run(m, read_lines(lines)) == match step(m, reading(lines[0])) {
            Ok(next) => run(next, read_lines(lines.skip(1))),
            Err(e) => Err(e),
        },
        runs_through(m, read_lines(lines)) == (!needs_camera(m, reading(lines[0])) && match step(
            m,
            reading(lines[0]),
        ) {
            Ok(next) => runs_through(next, read_lines(lines.skip(1))),
            Err(_) => true,
        }),
{
    assert(read_lines(lines)[0] == Some(lines[0]));
    assert(read_lines(lines).skip(1) == read_lines(lines.skip(1)));
}

/// Two runs on end go as the first goes, and then as the second goes from
/// where the first ended.
pub proof fn law_run_add(
    m: ParserView,
    first: Seq<Option<Seq<char>>>,
    second: Seq<Option<Seq<char>>>,
)
    ensures
        run(m, first + second) == match run(m, first) {
            Ok(mid) => run(mid, second),
            Err(e) => Err(e),
        },
        runs_through(m, first + second) == (runs_through(m, first) && match run(m, first) {
            Ok(mid) => runs_through(mid, second),
            Err(_) => true,
        }),
    decreases first.len(),
{
    if first.len() == 0 {
        assert(first + second == second);
    } else {
        assert((first + second).skip(1) == first.skip(1) + second);
        if let Some(l) = first[0] {
            if let Ok(next) = step(m, reading(l)) {
                law_run_add(next, first.skip(1), second);
            }
        }
    }
}

/// One pose block, line by line: the first two lines of four numbers open
/// the block and go on with it, the third makes the camera.
pub proof fn law_pose_block_steps(m: ParserView, a: Seq<char>, b: Seq<char>, c: Seq<char>)
    requires
        in_no_block(m),
        four_floats(a) is Some,
        four_floats(b) is Some,
        four_floats(c) is Some,
    ensures
        step(m, reading(a)) == Ok::<ParserView, ParserError>(
            ParserView { s: StateView::StartPose(seq![pose_row(a)]), ..m },
        ),
        step(ParserView { s: StateView::StartPose(seq![pose_row(a)]), ..m }, reading(b)) == Ok::<
            ParserView,
            ParserError,
        >(ParserView { s: StateView::StartPose(seq![pose_row(a), pose_row(b)]), ..m }),
        step(
            ParserView { s: StateView::StartPose(seq![pose_row(a), pose_row(b)]), ..m },
            reading(c),
        ) == Ok::<ParserView, ParserError>(
            ParserView {
                s: StateView::Anything,
                sd: m.sd.with_camera(
                    pose_camera(seq![pose_row(a), pose_row(b), pose_row(c)], m.last_camera_id),
                ),
                last_camera_id: None,
            },
        ),
{
    reveal(step);
    law_four_floats_alone(a);
    assert(seq![pose_row(a)].push(pose_row(b)) == seq![pose_row(a), pose_row(b)]);
    assert(seq![pose_row(a), pose_row(b)].push(pose_row(c)) == seq![
        pose_row(a),
        pose_row(b),
        pose_row(c),
    ]);
}

/// The cameras of pose blocks are the camera of the first block and the
/// cameras of the blocks behind it.
proof fn lemma_block_cameras_first(lines: Seq<Seq<char>>, label: Option<Seq<char>>)
    requires
        lines.len() >= 3,
        lines.len() % 3 == 0,
    ensures
        block_cameras(lines, label) == seq![
            pose_camera(
                seq![pose_row(lines[0]), pose_row(lines[1]), pose_row(lines[2])],
                label,
            ),
        ] + block_cameras(lines.skip(3), None),
{
    let rest = lines.skip(3);
    let made = block_cameras(lines, label);
    let more = block_cameras(rest, None);
    assert(made.len() == more.len() + 1);
    assert forall|i: int| 0 <= i < more.len() implies made[i + 1] == #[trigger] more[i] by {
        assert(rest[3 * i] == lines[3 * (i + 1)]);
        assert(rest[3 * i + 1] == lines[3 * (i + 1) + 1]);
        assert(rest[3 * i + 2] == lines[3 * (i + 1) + 2]);
    }
    assert(made =~= seq![made[0]] + more);
}

/// A run that starts with a pose block goes on behind the block from the
/// parser that holds the block's camera.
pub proof fn law_run_pose_block(m: ParserView, lines: Seq<Seq<char>>)
    requires
        in_no_block(m),
        lines.len() >= 3,
        four_floats(lines[0]) is Some,
        four_floats(lines[1]) is Some,
        four_floats(lines[2]) is Some,
    ensures
        run(m, read_lines(lines)) == run(
            ParserView {
                s: StateView::Anything,
                sd: m.sd.with_camera(
                    pose_camera(
                        seq![pose_row(lines[0]), pose_row(lines[1]), pose_row(lines[2])],
                        m.last_camera_id,
                    ),
                ),
                last_camera_id: None,
            },
            read_lines(lines.skip(3)),
        ),
        runs_through(m, read_lines(lines)) == runs_through(
            ParserView {
                s: StateView::Anything,
                sd: m.sd.with_camera(
                    pose_camera(
                        seq![pose_row(lines[0]), pose_row(lines[1]), pose_row(lines[2])],
                        m.last_camera_id,
                    ),
                ),
                last_camera_id: None,
            },
            read_lines(lines.skip(3)),
        ),
{
    let m1 = ParserView { s: StateView::StartPose(seq![pose_row(lines[0])]), ..m };
    let m2 = ParserView {
        s: StateView::StartPose(seq![pose_row(lines[0]), pose_row(lines[1])]),
        ..m
    };
    law_pose_block_steps(m, lines[0], lines[1], lines[2]);
    law_run_first(m, lines);
    law_run_first(m1, lines.skip(1));
    law_run_first(m2, lines.skip(1).skip(1));
    assert(lines.skip(1)[0] == lines[1]);
    assert(lines.skip(1).skip(1)[0] == lines[2]);
    assert(lines.skip(1).skip(1).skip(1) == lines.skip(3));
}

/// To push an item and add a sequence is to add the sequence with the item
/// before it.
proof fn lemma_push_then_add<T>(a: Seq<T>, x: T, b: Seq<T>)
    ensures
        a.push(x) + b == a + (seq![x] + b),
{
    assert(a.push(x) + b =~= a + (seq![x] + b));
}

/// Pose blocks: from outside a block, lines of four numbers in groups of
/// three make one camera for each group, in the order of the groups. The
/// rotation of each is the first three columns of its three lines, its
/// translation the fourth, bit for bit. The first takes the label that was
/// waiting. Points and intrinsic matrix stay.
pub proof fn law_pose_blocks(m: ParserView, lines: Seq<Seq<char>>)
    requires
        in_no_block(m),
        lines.len() % 3 == 0,
        forall|i: int| 0 <= i < lines.len() ==> (#[trigger] four_floats(lines[i])) is Some,
    ensures
        runs_through(m, read_lines(lines)),
        run(m, read_lines(lines)) matches Ok(last) && last.sd == (SlamView {
            cameras: m.sd.cameras + block_cameras(lines, m.last_camera_id),
            ..m.sd
        }) && (lines.len() > 0 ==> last.s is Anything && last.last_camera_id is None),
    decreases lines.len(),
{
    if lines.len() == 0 {
        assert(m.sd.cameras + block_cameras(lines, m.last_camera_id) == m.sd.cameras);
    } else {
        let rest = lines.skip(3);
        let first = pose_camera(
            seq![pose_row(lines[0]), pose_row(lines[1]), pose_row(lines[2])],
            m.last_camera_id,
        );
        let m3 = ParserView {
            s: StateView::Anything,
            sd: m.sd.with_camera(first),
            last_camera_id: None,
        };
        law_run_pose_block(m, lines);
        assert forall|i: int| 0 <= i < rest.len() implies (#[trigger] four_floats(rest[i]))
            is Some by {
            assert(rest[i] == lines[i + 3]);
        }
        law_pose_blocks(m3, rest);
        lemma_block_cameras_first(lines, m.last_camera_id);
        lemma_push_then_add(m.sd.cameras, first, block_cameras(rest, None));
    }
}

/// Pixels: behind a pose and before any point, each pixel line adds its pixel
/// to the last camera, in the order of the lines. Nothing else changes.
pub proof fn law_pixels(m: ParserView, lines: Seq<Seq<char>>)
    requires
        m.s is Anything,
        m.sd.cameras.len() > 0,
        forall|i: int| 0 <= i < lines.len() ==> (#[trigger] two_floats(lines[i])) is Some,
    ensures
        runs_through(m, read_lines(lines)),
        run(m, read_lines(lines)) == Ok::<ParserView, ParserError>(
            ParserView {
                sd: SlamView {
                    cameras: m.sd.cameras.update(
                        m.sd.cameras.len() - 1,
                        CameraView {
                            pixels: m.sd.cameras.last().pixels + lines.map_values(
                                |l: Seq<char>| pixel_of(l),
                            ),
                            ..m.sd.cameras.last()
                        },
                    ),
                    ..m.sd
                },
                ..m
            },
        ),
    decreases lines.len(),
{
    reveal(step);
    let all = read_lines(lines);
    let last = m.sd.cameras.len() - 1;
    let camera = m.sd.cameras.last();
    let pixels = lines.map_values(|l: Seq<char>| pixel_of(l));
    if lines.len() == 0 {
        assert(camera.pixels + pixels == camera.pixels);
        assert(m.sd.cameras.update(last, camera) == m.sd.cameras);
    } else {
        let rest = lines.skip(1);
        law_two_floats_alone(lines[0]);
        let m1 = step(m, reading(lines[0]))->Ok_0;
        law_run_first(m, lines);
        assert forall|i: int| 0 <= i < rest.len() implies (#[trigger] two_floats(rest[i]))
            is Some by {
            assert(rest[i] == lines[i + 1]);
        }
        law_pixels(m1, rest);
        let more = rest.map_values(|l: Seq<char>| pixel_of(l));
        assert(m1.sd.cameras.last() == camera.with_pixel(pixel_of(lines[0])));
        assert(camera.pixels.push(pixel_of(lines[0])) + more == camera.pixels + pixels);
        assert(m1.sd.cameras.update(
            last,
            CameraView { pixels: camera.pixels + pixels, ..camera },
        ) == m.sd.cameras.update(last, CameraView { pixels: camera.pixels + pixels, ..camera }));
    }
}

/// A pose and its pixels: a pose block and pixel lines right behind it make
/// a camera that holds the pixels of those lines, in their order.
pub proof fn law_pose_then_pixels(m: ParserView, rows: Seq<Seq<char>>, pixels: Seq<Seq<char>>)
    requires
        in_no_block(m),
        rows.len() == 3,
        forall|i: int| 0 <= i < 3 ==> (#[trigger] four_floats(rows[i])) is Some,
        forall|i: int| 0 <= i < pixels.len() ==> (#[trigger] two_floats(pixels[i])) is Some,
    ensures
        runs_through(m, read_lines(rows + pixels)),
        run(m, read_lines(rows + pixels)) == Ok::<ParserView, ParserError>(
            ParserView {
                s: StateView::Anything,
                sd: m.sd.with_camera(
                    CameraView {
                        pixels: pixels.map_values(|l: Seq<char>| pixel_of(l)),
                        ..pose_camera(
                            seq![pose_row(rows[0]), pose_row(rows[1]), pose_row(rows[2])],
                            m.last_camera_id,
                        )
                    },
                ),
                last_camera_id: None,
            },
        ),
{
    let camera = pose_camera(
        seq![pose_row(rows[0]), pose_row(rows[1]), pose_row(rows[2])],
        m.last_camera_id,
    );
    let mid = ParserView {
        s: StateView::Anything,
        sd: m.sd.with_camera(camera),
        last_camera_id: None,
    };
    let seen = pixels.map_values(|l: Seq<char>| pixel_of(l));
    law_run_pose_block(m, rows);
    assert(rows.skip(3).len() == 0);
    assert(read_lines(rows.skip(3)).len() == 0);
    assert(run(m, read_lines(rows)) == Ok::<ParserView, ParserError>(mid));
    assert(runs_through(m, read_lines(rows)));
    law_pixels(mid, pixels);
    law_run_add(m, read_lines(rows), read_lines(pixels));
    assert(read_lines(rows) + read_lines(pixels) == read_lines(rows + pixels));
    assert(camera.pixels + seen == seen);
    assert(mid.sd.cameras.update(
        mid.sd.cameras.len() - 1,
        CameraView { pixels: seen, ..camera },
    ) == m.sd.cameras.push(CameraView { pixels: seen, ..camera }));
}

/// A pixel behind a point: in the state that a point leaves, a pixel line is
/// the error `UnexpectedPixel`.
pub proof fn law_pixel_behind_point(m: ParserView, pixel: Seq<char>)
    requires
        m.s is PoseOrPoint,
        two_floats(pixel) is Some,
    ensures
        !needs_camera(m, reading(pixel)),
        step(m, reading(pixel)) == Err::<ParserView, ParserError>(ParserError::UnexpectedPixel),
{
    reveal(step);
    law_two_floats_alone(pixel);
}

/// A point, then a pixel: from outside a block, a line of three numbers adds
/// its point, and a pixel line right behind it is the error
/// `UnexpectedPixel`.
pub proof fn law_point_then_pixel(m: ParserView, point: Seq<char>, pixel: Seq<char>)
    requires
        in_no_block(m),
        three_floats(point) is Some,
        two_floats(pixel) is Some,
    ensures
        step(m, reading(point)) == Ok::<ParserView, ParserError>(
            ParserView { s: StateView::PoseOrPoint, sd: m.sd.with_point(point_of(point)), ..m },
        ),
        runs_through(m, read_lines(seq![point, pixel])),
        run(m, read_lines(seq![point, pixel])) == Err::<ParserView, ParserError>(
            ParserError::UnexpectedPixel,
        ),
{
    reveal(step);
    law_three_floats_alone(point);
    let lines = seq![point, pixel];
    let m1 = step(m, reading(point))->Ok_0;
    law_pixel_behind_point(m1, pixel);
    law_run_first(m, lines);
    law_run_first(m1, lines.skip(1));
}

/// An interrupted pose block: in a pose block every line but a line of four
/// numbers is the error `IncompletePose`.
pub proof fn law_interrupted_pose(m: ParserView, line: Seq<char>)
    requires
        m.s is StartPose,
        four_floats(line) is None,
    ensures
        step(m, reading(line)) == Err::<ParserView, ParserError>(ParserError::IncompletePose),
{
    reveal(step);
}

/// An interrupted intrinsic block: in an intrinsic block every line but a
/// camera label and a line of three numbers is the error `IncompleteK`.
pub proof fn law_interrupted_matrix(m: ParserView, line: Seq<char>)
    requires
        m.s is StartMatK,
        camera_label(line) is None,
        three_floats(line) is None,
    ensures
        step(m, reading(line)) == Err::<ParserView, ParserError>(ParserError::IncompleteK),
{
    reveal(step);
}

/// A line with the tag of the intrinsic matrix is no line of numbers.
pub proof fn law_k_tag_alone(line: Seq<char>)
    requires
        has_k_tag(line),
    ensures
        four_floats(line) is None,
        three_floats(line) is None,
        two_floats(line) is None,
{
    reveal(four_floats);
    reveal(three_floats);
    reveal(two_floats);
    lemma_k_tag_is_no_row(line, 4);
    lemma_k_tag_is_no_row(line, 3);
}

/// An intrinsic block: from outside a block, the tag of the intrinsic matrix
/// and three lines of three numbers behind it replace the matrix by the rows
/// of those lines, bit for bit. Cameras, points and the waiting label stay.
pub proof fn law_matrix_block(m: ParserView, tag: Seq<char>, rows: Seq<Seq<char>>)
    requires
        in_no_block(m),
        has_k_tag(tag),
        camera_label(tag) is None,
        rows.len() == 3,
        forall|i: int| 0 <= i < 3 ==> (#[trigger] three_floats(rows[i])) is Some,
    ensures
        runs_through(m, read_lines(seq![tag] + rows)),
        run(m, read_lines(seq![tag] + rows)) == Ok::<ParserView, ParserError>(
            ParserView {
                s: StateView::Anything,
                sd: m.sd.with_k([point_of(rows[0]), point_of(rows[1]), point_of(rows[2])]),
                ..m
            },
        ),
{
    reveal(step);
    let lines = seq![tag] + rows;
    let (a, b, c) = (point_of(rows[0]), point_of(rows[1]), point_of(rows[2]));
    let m0 = ParserView { s: StateView::StartMatK(Seq::empty()), ..m };
    let m1 = ParserView { s: StateView::StartMatK(seq![a]), ..m };
    let m2 = ParserView { s: StateView::StartMatK(seq![a, b]), ..m };
    let m3 = ParserView { s: StateView::Anything, sd: m.sd.with_k([a, b, c]), ..m };
    law_k_tag_alone(tag);
    law_three_floats_alone(rows[0]);
    law_three_floats_alone(rows[1]);
    law_three_floats_alone(rows[2]);
    assert(Seq::<[u32; 3]>::empty().push(a) == seq![a]);
    assert(seq![a].push(b) == seq![a, b]);
    assert(seq![a, b].push(c) == seq![a, b, c]);
    assert(step(m, reading(tag)) == Ok::<ParserView, ParserError>(m0));
    assert(step(m0, reading(rows[0])) == Ok::<ParserView, ParserError>(m1));
    assert(step(m1, reading(rows[1])) == Ok::<ParserView, ParserError>(m2));
    assert(step(m2, reading(rows[2])) == Ok::<ParserView, ParserError>(m3));
    law_run_first(m, lines);
    law_run_first(m0, lines.skip(1));
    law_run_first(m1, lines.skip(1).skip(1));
    law_run_first(m2, lines.skip(1).skip(1).skip(1));
    assert(lines.skip(1) == rows);
    assert(rows.skip(1)[0] == rows[1]);
    assert(rows.skip(1).skip(1)[0] == rows[2]);
    assert(rows.skip(1).skip(1).skip(1).len() == 0);
    assert(read_lines(rows.skip(1).skip(1).skip(1)).len() == 0);
}

/// Blanks and line terminator: blanks before a line, and blanks and a line
/// terminator behind it, change neither the numbers that it is read as nor
/// whether it holds the tag of the intrinsic matrix. Blanks before it and a
/// line terminator behind it do not change its camera label. So the parser
/// goes the same way on both lines, but for blanks behind a camera marker or
/// a label, which belong to the label.
pub proof fn law_padding(m: ParserView, before: Seq<char>, line: Seq<char>, behind: Seq<char>)
    requires
        all_blank(before),
        plain(line),
        is_line_end(behind),
    ensures
        four_floats(before + line + behind) == four_floats(line),
        three_floats(before + line + behind) == three_floats(line),
        two_floats(before + line + behind) == two_floats(line),
        has_k_tag(before + line + behind) == has_k_tag(line),
        is_terminator(behind) ==> camera_label(before + line + behind) == camera_label(line),
        camera_label(before + line + behind) == camera_label(line) ==> step(
            m,
            reading(before + line + behind),
        ) == step(m, reading(line)),
{
    reveal(four_floats);
    reveal(three_floats);
    reveal(two_floats);
    lemma_number_row_padding(before, line, behind, 4);
    lemma_number_row_padding(before, line, behind, 3);
    lemma_pixel_row_padding(before, line, behind);
    lemma_k_tag_padding(before, line, behind);
    if is_terminator(behind) {
        lemma_camera_label_padding(before, line, behind);
    }
}

/// A label and its pose: outside a pose block a camera label line changes
/// nothing but the label that waits, and the state stays.
pub proof fn law_label_waits(m: ParserView, label: Seq<char>)
    requires
        !(m.s is StartPose),
        camera_label(label) is Some,
    ensures
        !needs_camera(m, reading(label)),
        step(m, reading(label)) == Ok::<ParserView, ParserError>(
            ParserView { last_camera_id: camera_label(label), ..m },
        ),
{
    reveal(step);
}

/// A label and its pose: a camera label line and a pose block behind it make
/// a camera with that label, and no label waits behind it.
pub proof fn law_label_then_pose(m: ParserView, label: Seq<char>, rows: Seq<Seq<char>>)
    requires
        in_no_block(m),
        camera_label(label) is Some,
        rows.len() == 3,
        forall|i: int| 0 <= i < 3 ==> (#[trigger] four_floats(rows[i])) is Some,
    ensures
        runs_through(m, read_lines(seq![label] + rows)),
        run(m, read_lines(seq![label] + rows)) == Ok::<ParserView, ParserError>(
            ParserView {
                s: StateView::Anything,
                sd: m.sd.with_camera(
                    pose_camera(
                        seq![pose_row(rows[0]), pose_row(rows[1]), pose_row(rows[2])],
                        camera_label(label),
                    ),
                ),
                last_camera_id: None,
            },
        ),
{
    let lines = seq![label] + rows;
    let m1 = ParserView { last_camera_id: camera_label(label), ..m };
    law_label_waits(m, label);
    law_run_first(m, lines);
    assert(lines.skip(1) == rows);
    law_pose_blocks(m1, rows);
    let made = block_cameras(rows, m1.last_camera_id);
    assert(made.len() == 1);
    assert(m.sd.cameras + made == m.sd.cameras.push(made[0]));
}

/// A label without a pose: a camera label line at the end of a run leaves
/// the dataset as the run before it made it.
pub proof fn law_label_at_the_end(
    m: ParserView,
    lines: Seq<Option<Seq<char>>>,
    label: Seq<char>,
)
    requires
        camera_label(label) is Some,
        run(m, lines) matches Ok(mid) && !(mid.s is StartPose),
    ensures
        run(m, lines.push(Some(label))) matches Ok(last) && last.sd == run(m, lines)->Ok_0.sd,
{
    let mid = run(m, lines)->Ok_0;
    law_run_add(m, lines, seq![Some(label)]);
    assert(lines + seq![Some(label)] == lines.push(Some(label)));
    law_label_waits(mid, label);
    law_run_first(mid, seq![label]);
    assert(read_lines(seq![label]) == seq![Some(label)]);
    assert(read_lines(seq![label].skip(1)).len() == 0);
}

/// Whether `a` is how `b` starts.
pub open spec fn starts<T>(a: Seq<T>, b: Seq<T>) -> bool {
    a.len() <= b.len() && b.take(a.len() as int) == a
}

/// Blocks stay short: a line leaves fewer than three rows in a block, where
/// fewer than three were in it before.
pub proof fn law_block_stays_short(m: ParserView, line: Reading)
    requires
        m.wf(),
    ensures
        step(m, line) matches Ok(next) ==> next.wf(),
{
    reveal(step);
}

/// The dataset only grows: a line leaves every point and every camera where
/// it was and as it was, but for one more pixel in the last camera, and that
/// only outside a block and before any point. New points and cameras come
/// behind the old ones.
pub proof fn law_dataset_grows(m: ParserView, line: Reading)
    requires
        !needs_camera(m, line),
    ensures
        step(m, line) matches Ok(next) ==> {
            &&& starts(m.sd.points, next.sd.points)
            &&& m.sd.cameras.len() <= next.sd.cameras.len()
            &&& forall|i: int|
                0 <= i < m.sd.cameras.len() ==> {
                    let before = m.sd.cameras[i];
                    let after = #[trigger] next.sd.cameras[i];
                    &&& after.r_cw == before.r_cw
                    &&& after.t_cw == before.t_cw
                    &&& after.camera_id == before.camera_id
                    &&& starts(before.pixels, after.pixels)
                    &&& after.pixels != before.pixels ==> m.s is Anything && i
                        == m.sd.cameras.len() - 1 && after.pixels.len() == before.pixels.len()
                        + 1
                }
        },
{
    reveal(step);
    if let Ok(next) = step(m, line) {
        assert(next.sd.points.take(m.sd.points.len() as int) == m.sd.points);
        assert forall|i: int| 0 <= i < m.sd.cameras.len() implies starts(
            m.sd.cameras[i].pixels,
            (#[trigger] next.sd.cameras[i]).pixels,
        ) by {
            let before = m.sd.cameras[i].pixels;
            let after = next.sd.cameras[i].pixels;
            assert(after.take(before.len() as int) == before);
        }
    }
}

} // verus!
