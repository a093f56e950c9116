//! The parser: the state machine in executable form, line by line.

use crate::classify::{reading, LineReading};
use crate::data::{pose_camera, rows_matrix, text_of, CameraWithPoints, SlamData, ONE};
use crate::error::ParserError;
use crate::machine::{
    camera_id_rule, four_floats_rule, k_tag_rule, needs_camera, run, runs_through, step,
    three_floats_rule, two_floats_rule, ParserView, StateView,
};
use vstd::prelude::*;

verus! {

/// Where a parser stands in the grammar of blocks.
pub enum ParserState {
    /// In a pose block, with the rows read so far.
    StartPose(Vec<[u32; 4]>),
    /// In an intrinsic matrix block, with the rows read so far.
    StartMatK(Vec<[u32; 3]>),
    /// In no block; a pose, a point or a pixel may come.
    Anything,
    /// In no block, behind a point; a pose or a point may come, no pixel.
    PoseOrPoint,
}

impl View for ParserState {
    type V = StateView;

    open spec fn view(&self) -> StateView {
        match self {
            ParserState::StartPose(rows) => StateView::StartPose(rows@),
            ParserState::StartMatK(rows) => StateView::StartMatK(rows@),
            ParserState::Anything => StateView::Anything,
            ParserState::PoseOrPoint => StateView::PoseOrPoint,
        }
    }
}

/// A vector with the items of `v`.
pub fn copy_of<T: Copy>(v: &Vec<T>) -> (r: Vec<T>)
    ensures
        r@ == v@,
{
    let mut r: Vec<T> = Vec::new();
    let mut i: usize = 0;
    while i < v.len()
        invariant
            i <= v.len(),
            r@ == v@.take(i as int),
        decreases v.len() - i,
    {
        r.push(v[i]);
        i += 1;
    }
    r
}

impl Clone for ParserState {
    fn clone(&self) -> (r: Self)
        ensures
            r@ == self@,
    {
        match self {
            ParserState::StartPose(rows) => ParserState::StartPose(copy_of(rows)),
            ParserState::StartMatK(rows) => ParserState::StartMatK(copy_of(rows)),
            ParserState::Anything => ParserState::Anything,
            ParserState::PoseOrPoint => ParserState::PoseOrPoint,
        }
    }
}

/// Reads a log line by line and gathers its dataset.
pub struct Parser {
    s: ParserState,
    sd: SlamData,
    last_camera_id: Option<String>,
}

impl View for Parser {
    type V = ParserView;

    closed spec fn view(&self) -> ParserView {
        ParserView { s: self.s@, sd: self.sd@, last_camera_id: text_of(self.last_camera_id) }
    }
}

/// The texts of a run of lines, of which `None` is a line that could not be
/// read.
pub open spec fn lines_text(lines: Seq<Option<String>>) -> Seq<Option<Seq<char>>> {
    lines.map_values(|l: Option<String>| text_of(l))
}

/// How the outcome of a rule shows in what the rule's function returns and
/// in the parser it leaves: the new state is handed back and not yet entered.
pub open spec fn rule_met(
    before: ParserView,
    after: ParserView,
    r: Result<Option<ParserState>, ParserError>,
    outcome: Result<Option<ParserView>, ParserError>,
) -> bool {
    match outcome {
        Err(e) => r == Err::<Option<ParserState>, ParserError>(e) && after == before,
        Ok(None) => r == Ok::<Option<ParserState>, ParserError>(None) && after == before,
        Ok(Some(m)) => r matches Ok(Some(s)) && s@ == m.s && after == (ParserView {
            s: before.s,
            ..m
        }),
    }
}

impl Parser {
    /// A parser before its first line: no camera, no point, the identity as
    /// intrinsic matrix, no label waiting.
    pub fn new() -> (p: Parser)
        ensures
            p@ == ParserView::initial(),
            p@.wf(),
    {
        let p = Parser {
            s: ParserState::Anything,
            sd: SlamData {
                cameras: Vec::new(),
                points: Vec::new(),
                k: [[ONE, 0, 0], [0, ONE, 0], [0, 0, ONE]],
            },
            last_camera_id: None,
        };
        assert(p.sd@.cameras =~= Seq::empty());
        p
    }

    /// The state that the parser is in.
    pub fn state(&self) -> (s: &ParserState)
        ensures
            s@ == self@.s,
    {
        &self.s
    }

    /// The dataset gathered so far.
    pub fn data(&self) -> (d: &SlamData)
        ensures
            d@ == self@.sd,
    {
        &self.sd
    }

    /// Ends the parse and hands out the dataset.
    pub fn finish(self) -> (d: SlamData)
        ensures
            d@ == self@.sd,
    {
        self.sd
    }

    /// Makes a camera of the three rows of a pose block. It takes the waiting
    /// label, and no label waits behind it.
    pub fn save_new_camera_pose(&mut self, pose: Vec<[u32; 4]>)
        requires
            pose.len() == 3,
        ensures
            final(self)@ == (ParserView {
                sd: old(self)@.sd.with_camera(pose_camera(pose@, old(self)@.last_camera_id)),
                last_camera_id: None,
                ..old(self)@
            }),
    {
        let r = [
            [pose[0][0], pose[0][1], pose[0][2]],
            [pose[1][0], pose[1][1], pose[1][2]],
            [pose[2][0], pose[2][1], pose[2][2]],
        ];
        let t = [pose[0][3], pose[1][3], pose[2][3]];
        let camera = CameraWithPoints {
            r_cw: r,
            t_cw: t,
            pixels: Vec::new(),
            camera_id: self.last_camera_id.take(),
        };
        assert(camera@ == pose_camera(pose@, old(self)@.last_camera_id));
        self.sd.cameras.push(camera);
        assert(self.sd@.cameras == old(self).sd@.cameras.push(camera@));
    }

    /// Replaces the intrinsic matrix by the three rows of an intrinsic block.
    pub fn save_mat_k(&mut self, k: Vec<[u32; 3]>)
        requires
            k.len() == 3,
        ensures
            final(self)@ == (ParserView {
                sd: old(self)@.sd.with_k(rows_matrix(k@)),
                ..old(self)@
            }),
    {
        self.sd.k = [k[0], k[1], k[2]];
    }

    /// The row that four values make.
    pub fn tuple2arr_4(t: (u32, u32, u32, u32)) -> (r: [u32; 4])
        ensures
            r == [t.0, t.1, t.2, t.3],
    {
        [t.0, t.1, t.2, t.3]
    }

    /// The row that three values make.
    pub fn tuple2arr_3(t: (u32, u32, u32)) -> (r: [u32; 3])
        ensures
            r == [t.0, t.1, t.2],
    {
        [t.0, t.1, t.2]
    }

    /// The first rule, on what the line holds as a camera label.
    pub fn try_camera_id(&mut self, camera_id: Option<String>) -> (r: Result<
        Option<ParserState>,
        ParserError,
    >)
        requires
            old(self)@.wf(),
        ensures
            rule_met(
                old(self)@,
                final(self)@,
                r,
                camera_id_rule(old(self)@, text_of(camera_id)),
            ),
            r matches Ok(Some(s)) ==> s@.wf(),
    {
        if let ParserState::StartPose(_) = self.s {
            return Ok(None);
        }
        match camera_id {
            None => Ok(None),
            Some(label) => {
                self.last_camera_id = Some(label);
                Ok(Some(self.s.clone()))
            },
        }
    }

    /// The second rule, on what the line holds as a row of four.
    pub fn try_four_floats(&mut self, four_floats: Option<(u32, u32, u32, u32)>) -> (r: Result<
        Option<ParserState>,
        ParserError,
    >)
        requires
            old(self)@.wf(),
        ensures
            rule_met(old(self)@, final(self)@, r, four_floats_rule(old(self)@, four_floats)),
            r matches Ok(Some(s)) ==> s@.wf(),
    {
        match four_floats {
            None => match &self.s {
                ParserState::StartPose(_) => Err(ParserError::IncompletePose),
                _ => Ok(None),
            },
            Some(floats) => {
                let row = Parser::tuple2arr_4(floats);
                match &self.s {
                    ParserState::StartMatK(_) => Ok(None),
                    ParserState::StartPose(previous_lines) => {
                        let mut previous_lines = copy_of(previous_lines);
                        previous_lines.push(row);
                        if previous_lines.len() == 3 {
                            self.save_new_camera_pose(previous_lines);
                            Ok(Some(ParserState::Anything))
                        } else {
                            Ok(Some(ParserState::StartPose(previous_lines)))
                        }
                    },
                    _ => {
                        let mut lines: Vec<[u32; 4]> = Vec::new();
                        lines.push(row);
                        assert(lines@ == seq![row]);
                        Ok(Some(ParserState::StartPose(lines)))
                    },
                }
            },
        }
    }

    /// The third rule, on what the line holds as a row of three.
    pub fn try_three_floats(&mut self, three_floats: Option<(u32, u32, u32)>) -> (r: Result<
        Option<ParserState>,
        ParserError,
    >)
        requires
            old(self)@.wf(),
        ensures
            rule_met(old(self)@, final(self)@, r, three_floats_rule(old(self)@, three_floats)),
            r matches Ok(Some(s)) ==> s@.wf(),
    {
        match three_floats {
            None => match &self.s {
                ParserState::StartMatK(_) => Err(ParserError::IncompleteK),
                _ => Ok(None),
            },
            Some(floats) => {
                let row = Parser::tuple2arr_3(floats);
                match &self.s {
                    ParserState::StartPose(_) => Ok(None),
                    ParserState::StartMatK(previous_lines) => {
                        let mut previous_lines = copy_of(previous_lines);
                        previous_lines.push(row);
                        if previous_lines.len() == 3 {
                            self.save_mat_k(previous_lines);
                            Ok(Some(ParserState::Anything))
                        } else {
                            Ok(Some(ParserState::StartMatK(previous_lines)))
                        }
                    },
                    _ => {
                        self.sd.points.push(row);
                        Ok(Some(ParserState::PoseOrPoint))
                    },
                }
            },
        }
    }

    /// The fourth rule, on what the line holds as a pixel. A pixel needs a
    /// camera to go to.
    pub fn try_two_floats(&mut self, two_floats: Option<(u32, u32)>) -> (r: Result<
        Option<ParserState>,
        ParserError,
    >)
        requires
            old(self)@.wf(),
            !(old(self)@.s is Anything && two_floats is Some && old(self)@.sd.cameras.len() == 0),
        ensures
            rule_met(old(self)@, final(self)@, r, two_floats_rule(old(self)@, two_floats)),
            r matches Ok(Some(s)) ==> s@.wf(),
    {
        match (&self.s, two_floats) {
            (ParserState::StartPose(_), _) => Err(ParserError::IncompletePose),
            (ParserState::StartMatK(_), _) => Err(ParserError::IncompleteK),
            (ParserState::PoseOrPoint, Some(_)) => Err(ParserError::UnexpectedPixel),
            (ParserState::Anything, Some(floats)) => {
                let last = self.sd.cameras.len() - 1;
                self.sd.cameras[last].pixels.push([floats.0, floats.1]);
                assert(self.sd@.cameras == old(self).sd@.with_pixel([floats.0, floats.1]).cameras);
                Ok(Some(ParserState::Anything))
            },
            (_, None) => Ok(None),
        }
    }

    /// The fifth rule, on whether the line holds the tag of the intrinsic
    /// matrix.
    pub fn try_mat_k_tag(&mut self, k_tag: bool) -> (r: Result<Option<ParserState>, ParserError>)
        requires
            old(self)@.wf(),
        ensures
            rule_met(old(self)@, final(self)@, r, k_tag_rule(old(self)@, k_tag)),
            r matches Ok(Some(s)) ==> s@.wf(),
    {
        if k_tag {
            Ok(Some(ParserState::StartMatK(Vec::new())))
        } else {
            Ok(None)
        }
    }

    /// Takes a line as it was read: the first rule that decides says what
    /// becomes of it, and a line on which none decides is passed over. After
    /// an error the parser is as it was before the line.
    pub fn apply(&mut self, line: LineReading) -> (r: Result<(), ParserError>)
        requires
            old(self)@.wf(),
            !needs_camera(old(self)@, line@),
        ensures
            final(self)@.wf(),
            match step(old(self)@, line@) {
                Ok(next) => r is Ok && final(self)@ == next,
                Err(e) => r == Err::<(), ParserError>(e) && final(self)@ == old(self)@,
            },
    {
        proof {
            reveal(step);
        }
        match self.try_camera_id(line.camera_id) {
            Err(e) => {
                return Err(e);
            },
            Ok(Some(new_state)) => {
                self.s = new_state;
                return Ok(());
            },
            Ok(None) => {},
        }
        match self.try_four_floats(line.four_floats) {
            Err(e) => {
                return Err(e);
            },
            Ok(Some(new_state)) => {
                self.s = new_state;
                return Ok(());
            },
            Ok(None) => {},
        }
        match self.try_three_floats(line.three_floats) {
            Err(e) => {
                return Err(e);
            },
            Ok(Some(new_state)) => {
                self.s = new_state;
                return Ok(());
            },
            Ok(None) => {},
        }
        match self.try_two_floats(line.two_floats) {
            Err(e) => {
                return Err(e);
            },
            Ok(Some(new_state)) => {
                self.s = new_state;
                return Ok(());
            },
            Ok(None) => {},
        }
        match self.try_mat_k_tag(line.k_tag) {
            Err(e) => {
                return Err(e);
            },
            Ok(Some(new_state)) => {
                self.s = new_state;
                return Ok(());
            },
            Ok(None) => {},
        }
        Ok(())
    }

    /// Whether the parser can take a line that was read so: it cannot where
    /// the line is a pixel and no camera is there for it.
    pub fn takes(&self, line: &LineReading) -> (b: bool)
        ensures
            b == !needs_camera(self@, line@),
    {
        match self.s {
            ParserState::Anything => {
                self.sd.cameras.len() > 0 || line.camera_id.is_some() || line.four_floats.is_some()
                    || line.three_floats.is_some() || line.two_floats.is_none()
            },
            _ => true,
        }
    }

    /// Takes the next line: reads it with the five grammars and takes it as
    /// it was read.
    pub fn next_line(&mut self, l: String) -> (r: Result<(), ParserError>)
        requires
            old(self)@.wf(),
            !needs_camera(old(self)@, reading(l@)),
        ensures
            final(self)@.wf(),
            match step(old(self)@, reading(l@)) {
                Ok(next) => r is Ok && final(self)@ == next,
                Err(e) => r == Err::<(), ParserError>(e) && final(self)@ == old(self)@,
            },
    {
        self.apply(Parser::classify(l.as_str()))
    }

    /// Whether the parser can take the line: it cannot where the line is a
    /// pixel and no camera is there for it.
    pub fn accepts(&self, l: &str) -> (b: bool)
        ensures
            b == !needs_camera(self@, reading(l@)),
    {
        match self.s {
            ParserState::Anything => self.sd.cameras.len() > 0 || self.takes(
                &Parser::classify(l),
            ),
            _ => true,
        }
    }

    /// Takes the next line where the parser can take it. On a pixel that
    /// finds no camera it returns `None` and leaves the parser as it was.
    pub fn checked_next_line(&mut self, l: String) -> (r: Option<Result<(), ParserError>>)
        requires
            old(self)@.wf(),
        ensures
            final(self)@.wf(),
            needs_camera(old(self)@, reading(l@)) ==> r is None && final(self)@ == old(self)@,
            !needs_camera(old(self)@, reading(l@)) ==> match step(old(self)@, reading(l@)) {
                Ok(next) => r matches Some(Ok(_)) && final(self)@ == next,
                Err(e) => r == Some(Err::<(), ParserError>(e)) && final(self)@ == old(self)@,
            },
    {
        if self.accepts(l.as_str()) {
            Some(self.next_line(l))
        } else {
            None
        }
    }

    /// Parses a run of lines from a new parser, of which `None` is a line that
    /// could not be read: the dataset behind the last line, or the first
    /// error. A block that the last line leaves open is no error. Where a
    /// pixel line finds no camera, and no error comes before it, the run
    /// cannot go on, and `None` is returned.
    pub fn parse_lines(lines: Vec<Option<String>>) -> (r: Option<Result<SlamData, ParserError>>)
        ensures
            !runs_through(ParserView::initial(), lines_text(lines@)) ==> r is None,
            runs_through(ParserView::initial(), lines_text(lines@)) ==> match run(
                ParserView::initial(),
                lines_text(lines@),
            ) {
                Ok(last) => r matches Some(Ok(d)) && d@ == last.sd,
                Err(e) => r matches Some(Err(x)) && x == e,
            },
    {
        let ghost all = lines_text(lines@);
        let mut parser = Parser::new();
        let mut i: usize = 0;
        assert(all.skip(0) == all);
        while i < lines.len()
            invariant
                i <= lines.len(),
                all == lines_text(lines@),
                parser@.wf(),
                run(ParserView::initial(), all) == run(parser@, all.skip(i as int)),
                runs_through(ParserView::initial(), all) == runs_through(
                    parser@,
                    all.skip(i as int),
                ),
            decreases lines.len() - i,
        {
            assert(all.skip(i as int).skip(1) == all.skip(i + 1));
            assert(all.skip(i as int)[0] == text_of(lines@[i as int]));
            match &lines[i] {
                None => {
                    return Some(Err(ParserError::ReadingLine));
                },
                Some(line) => match parser.checked_next_line(line.clone()) {
                    None => {
                        return None;
                    },
                    Some(Err(e)) => {
                        return Some(Err(e));
                    },
                    Some(Ok(_)) => {},
                },
            }
            i += 1;
        }
        Some(Ok(parser.sd))
    }
}

} // verus!
