//! Two-dimensional actors: boxes that bounce inside a frame, drawn on a
//! canvas or straight into an RGBA frame.

use vstd::prelude::*;

use crate::canvas::{cell_bytes, EngineCanvas};

verus! {

/// Side of a bouncing box, in pixels.
pub const BOX_SIZE: i16 = 64;

/// Size of the frame the boxes bounce in.
pub const FRAME_WIDTH: i16 = 960;

pub const FRAME_HEIGHT: i16 = 640;

/// How far, in pixels, a box may move in one update, and stray from the frame.
pub const REACH: i16 = 1024;

/// Whether a box at `pos` lies outside the frame's `extent` along an axis:
/// touching or past its start, or past its end.
pub open spec fn outside(pos: int, extent: int) -> bool {
    pos <= 0 || pos + BOX_SIZE > extent
}

/// Whether a box at `pos` is at most `REACH` pixels away from the frame's
/// `extent` along an axis.
pub open spec fn in_reach(pos: int, extent: int) -> bool {
    -REACH <= pos <= extent + REACH
}

/// Whether a box at `pos` moving by `vel` along an axis keeps within reach of
/// the frame: where it is outside, the step back that it takes next is too.
pub open spec fn axis_ok(pos: int, vel: int, extent: int) -> bool {
    &&& -REACH <= vel <= REACH
    &&& in_reach(pos, extent)
    &&& outside(pos, extent) ==> in_reach(pos - vel, extent)
}

/// Whether one update along an axis can be computed in `i16`: the test of
/// the far edge, the turned velocity and the new position all fit.
pub open spec fn axis_fits(pos: int, vel: int, extent: int) -> bool {
    let v = step_axis(pos, vel, extent).1;
    &&& pos <= 0 || pos + BOX_SIZE <= i16::MAX
    &&& i16::MIN <= v <= i16::MAX
    &&& i16::MIN <= pos + v <= i16::MAX
}

/// One update along an axis: the velocity turns back when the box is outside
/// the frame, then the box moves by it.
pub open spec fn step_axis(pos: int, vel: int, extent: int) -> (int, int) {
    let v = if outside(pos, extent) {
        -vel
    } else {
        vel
    };
    (pos + v, v)
}

/// A box as position and velocity: `(x, y, velocity_x, velocity_y)`.
pub type BoxState = (int, int, int, int);

/// The state of a box after one update.
pub open spec fn step_box(b: BoxState) -> BoxState {
    let (x, vx) = step_axis(b.0, b.2, FRAME_WIDTH as int);
    let (y, vy) = step_axis(b.1, b.3, FRAME_HEIGHT as int);
    (x, y, vx, vy)
}

/// Whether a box keeps within reach of the frame along both axes.
pub open spec fn box_ok(b: BoxState) -> bool {
    axis_ok(b.0, b.2, FRAME_WIDTH as int) && axis_ok(b.1, b.3, FRAME_HEIGHT as int)
}

/// Whether one update of the box can be computed in `i16`.
pub open spec fn box_fits(b: BoxState) -> bool {
    axis_fits(b.0, b.2, FRAME_WIDTH as int) && axis_fits(b.1, b.3, FRAME_HEIGHT as int)
}

/// Whether the pixel `(x, y)` is covered by the box.
pub open spec fn in_box(b: BoxState, x: int, y: int) -> bool {
    b.0 <= x < b.0 + BOX_SIZE && b.1 <= y < b.1 + BOX_SIZE
}

/// A box within reach of the frame can be updated, and the update keeps it
/// within reach, so that updates can go on for ever.
pub proof fn lemma_step_keeps_box(b: BoxState)
    requires
        box_ok(b),
    ensures
        box_fits(b),
        box_ok(step_box(b)),
{
}

fn bounce(pos: i16, vel: i16, extent: i16) -> (r: (i16, i16))
    requires
        axis_fits(pos as int, vel as int, extent as int),
    ensures
        (r.0 as int, r.1 as int) == step_axis(pos as int, vel as int, extent as int),
{
    let v = if pos <= 0 || pos + BOX_SIZE > extent {
        -vel
    } else {
        vel
    };
    (pos + v, v)
}

/// A square that bounces inside the frame.
#[derive(Debug, Clone, Copy)]
pub struct BouncingBox {
    box_x: i16,
    box_y: i16,
    velocity_x: i16,
    velocity_y: i16,
}

impl View for BouncingBox {
    type V = BoxState;

    closed spec fn view(&self) -> BoxState {
        (self.box_x as int, self.box_y as int, self.velocity_x as int, self.velocity_y as int)
    }
}

impl BouncingBox {
    /// A box at `(box_x, box_y)` moving by `(velocity_x, velocity_y)` each update.
    pub fn new(box_x: i16, box_y: i16, velocity_x: i16, velocity_y: i16) -> (r: BouncingBox)
        ensures
            r@ == (box_x as int, box_y as int, velocity_x as int, velocity_y as int),
    {
        BouncingBox { box_x, box_y, velocity_x, velocity_y }
    }

    /// Moves the box one step, turning back along each axis where it is
    /// outside the frame.
    pub fn update(&mut self)
        requires
            box_fits(old(self)@),
        ensures
            final(self)@ == step_box(old(self)@),
    {
        let (x, vx) = bounce(self.box_x, self.velocity_x, FRAME_WIDTH);
        let (y, vy) = bounce(self.box_y, self.velocity_y, FRAME_HEIGHT);
        self.box_x = x;
        self.velocity_x = vx;
        self.box_y = y;
        self.velocity_y = vy;
    }

    /// Lights the pixels of the canvas that the box covers.
    pub fn draw(&self, canvas: &mut EngineCanvas)
        requires
            old(canvas).wf(),
        ensures
            final(canvas).wf(),
            final(canvas).spec_width() == old(canvas).spec_width(),
            final(canvas).spec_height() == old(canvas).spec_height(),
            forall|x: int, y: int| #[trigger]
                final(canvas).lit(x, y) == (old(canvas).lit(x, y) || (0 <= x < old(
                    canvas,
                ).spec_width() && 0 <= y < old(canvas).spec_height() && in_box(self@, x, y))),
    {
        let ghost start = *canvas;
        let x0 = self.box_x as i32;
        let y0 = self.box_y as i32;
        let mut px: i32 = x0;
        while px < x0 + 64
            invariant
                x0 == self@.0,
                y0 == self@.1,
                x0 <= px <= x0 + 64,
                canvas.wf(),
                canvas.spec_width() == start.spec_width(),
                canvas.spec_height() == start.spec_height(),
                forall|x: int, y: int| #[trigger]
                    canvas.lit(x, y) == (start.lit(x, y) || (0 <= x < start.spec_width() && 0 <= y
                        < start.spec_height() && x0 <= x < px && y0 <= y < y0 + 64)),
            decreases x0 + 64 - px,
        {
            let mut py: i32 = y0;
            while py < y0 + 64
                invariant
                    y0 == self@.1,
                    x0 <= px < x0 + 64,
                    y0 <= py <= y0 + 64,
                    canvas.wf(),
                    canvas.spec_width() == start.spec_width(),
                    canvas.spec_height() == start.spec_height(),
                    forall|x: int, y: int| #[trigger]
                        canvas.lit(x, y) == (start.lit(x, y) || (0 <= x < start.spec_width() && 0
                            <= y < start.spec_height() && ((x0 <= x < px && y0 <= y < y0 + 64) || (
                        x == px && y0 <= y < py)))),
                decreases y0 + 64 - py,
            {
                if px >= 0 && py >= 0 {
                    canvas.push_pixel(px as usize, py as usize);
                }
                py = py + 1;
            }
            px = px + 1;
        }
    }
}

/// The colour of a pixel of the world's frame: the box's, or the background's.
pub open spec fn world_rgba(inside: bool) -> Seq<u8> {
    if inside {
        seq![0x5eu8, 0x48u8, 0xe8u8, 0xffu8]
    } else {
        seq![0x48u8, 0xb2u8, 0xe8u8, 0xffu8]
    }
}

/// A single bouncing box drawn straight into a frame `FRAME_WIDTH` pixels wide.
#[derive(Debug, Clone, Copy)]
pub struct World {
    bbox: BouncingBox,
}

impl View for World {
    type V = BoxState;

    closed spec fn view(&self) -> BoxState {
        self.bbox@
    }
}

impl World {
    /// The world with its box near the top left corner, moving down and right.
    pub fn new() -> (r: World)
        ensures
            r@ == (24int, 16int, 1int, 1int),
            box_ok(r@),
    {
        World { bbox: BouncingBox::new(24, 16, 1, 1) }
    }

    /// Moves the box one step.
    pub fn update(&mut self)
        requires
            box_ok(old(self)@),
        ensures
            final(self)@ == step_box(old(self)@),
            box_ok(final(self)@),
    {
        proof {
            lemma_step_keeps_box(self@);
        }
        self.bbox.update();
    }

    /// Paints every whole pixel of `frame`, an RGBA frame `FRAME_WIDTH` pixels
    /// wide, in the box's colour where the box covers it and in the
    /// background's elsewhere. Bytes after the last whole pixel are left alone.
    pub fn draw(&self, frame: &mut [u8])
        ensures
            final(frame)@.len() == old(frame)@.len(),
            forall|i: int|
                0 <= i < old(frame)@.len() / 4 ==> #[trigger] cell_bytes(final(frame)@, i)
                    == world_rgba(in_box(self@, i % FRAME_WIDTH as int, i / FRAME_WIDTH as int)),
            forall|k: int|
                4 * (old(frame)@.len() / 4) <= k < old(frame)@.len() ==> #[trigger] final(frame)@[k]
                    == old(frame)@[k],
    {
        let n = frame.len();
        let cells = n / 4;
        let bx = self.bbox.box_x as i64;
        let by = self.bbox.box_y as i64;
        let ghost start = frame@;
        let mut i: usize = 0;
        while i < cells
            invariant
                i <= cells,
                cells == n / 4,
                n == frame@.len(),
                n == start.len(),
                bx == self@.0,
                by == self@.1,
                forall|j: int|
                    0 <= j < i ==> #[trigger] cell_bytes(frame@, j) == world_rgba(
                        in_box(self@, j % FRAME_WIDTH as int, j / FRAME_WIDTH as int),
                    ),
                forall|k: int| 4 * i <= k < n ==> #[trigger] frame@[k] == start[k],
            decreases cells - i,
        {
            let x = (i % 960) as i64;
            let y = (i / 960) as i64;
            let inside = x >= bx && x < bx + 64 && y >= by && y < by + 64;
            let rgba: [u8; 4] = if inside {
                [0x5e, 0x48, 0xe8, 0xff]
            } else {
                [0x48, 0xb2, 0xe8, 0xff]
            };
            let ghost before = frame@;
            let k = 4 * i;
            frame[k] = rgba[0];
            frame[k + 1] = rgba[1];
            frame[k + 2] = rgba[2];
            frame[k + 3] = rgba[3];
            assert forall|j: int|
                0 <= j < i + 1 implies #[trigger] cell_bytes(frame@, j) == world_rgba(
                    in_box(self@, j % FRAME_WIDTH as int, j / FRAME_WIDTH as int),
                ) by {
                if j < i {
                    assert(cell_bytes(frame@, j) =~= cell_bytes(before, j));
                } else {
                    assert(cell_bytes(frame@, j) =~= world_rgba(
                        in_box(self@, j % FRAME_WIDTH as int, j / FRAME_WIDTH as int),
                    ));
                }
            }
            i = i + 1;
        }
    }
}

/// The boxes of an environment, as their states.
pub open spec fn box_states(actors: Seq<BouncingBox>) -> Seq<BoxState> {
    actors.map_values(|b: BouncingBox| b@)
}

/// Whether some box of `boxes` covers the pixel `(x, y)`.
pub open spec fn covered(boxes: Seq<BoxState>, x: int, y: int) -> bool {
    exists|k: int| 0 <= k < boxes.len() && in_box(#[trigger] boxes[k], x, y)
}

/// The actors of a scene, updated and drawn in order.
pub struct Environment {
    width: usize,
    actors: Vec<BouncingBox>,
}

impl Environment {
    /// The states of the environment's boxes, in order.
    pub closed spec fn boxes(&self) -> Seq<BoxState> {
        box_states(self.actors@)
    }

    /// Width of the environment, in pixels.
    pub closed spec fn spec_width(&self) -> nat {
        self.width as nat
    }

    /// Every box keeps within reach of the frame.
    pub open spec fn wf(&self) -> bool {
        forall|k: int| 0 <= k < self.boxes().len() ==> box_ok(#[trigger] self.boxes()[k])
    }

    /// An environment `width` pixels wide with two boxes.
    pub fn new(width: usize) -> (r: Environment)
        ensures
            r.spec_width() == width,
            r.boxes() == seq![(24int, 16int, 1int, 1int), (96int, 32int, 2int, 2int)],
            r.wf(),
    {
        let bbox1 = BouncingBox::new(24, 16, 1, 1);
        let bbox2 = BouncingBox::new(96, 32, 2, 2);
        let r = Environment { width, actors: vec![bbox1, bbox2] };
        assert(r.boxes() =~= seq![(24int, 16int, 1int, 1int), (96int, 32int, 2int, 2int)]);
        r
    }

    /// Width of the environment.
    pub fn width(&self) -> (r: usize)
        ensures
            r == self.spec_width(),
    {
        self.width
    }

    /// Updates every box, in order.
    pub fn update(&mut self)
        requires
            old(self).wf(),
        ensures
            final(self).spec_width() == old(self).spec_width(),
            final(self).boxes().len() == old(self).boxes().len(),
            forall|k: int|
                0 <= k < old(self).boxes().len() ==> #[trigger] final(self).boxes()[k] == step_box(
                    old(self).boxes()[k],
                ),
            final(self).wf(),
    {
        let ghost start = self.boxes();
        let ghost width = self.width;
        let mut i: usize = 0;
        while i < self.actors.len()
            invariant
                i <= self.actors@.len(),
                self.width == width,
                self.actors@.len() == start.len(),
                forall|k: int| 0 <= k < i ==> #[trigger] self.boxes()[k] == step_box(start[k]),
                forall|k: int| i <= k < start.len() ==> #[trigger] self.boxes()[k] == start[k],
                forall|k: int| 0 <= k < start.len() ==> box_ok(#[trigger] start[k]),
            decreases self.actors@.len() - i,
        {
            let mut actor = self.actors[i];
            assert(actor@ == self.boxes()[i as int]);
            proof {
                lemma_step_keeps_box(actor@);
            }
            actor.update();
            let ghost before = self.boxes();
            self.actors.set(i, actor);
            assert forall|k: int| 0 <= k < start.len() && k != i implies #[trigger] self.boxes()[k]
                == before[k] by {}
            i = i + 1;
        }
        assert forall|k: int| 0 <= k < self.boxes().len() implies box_ok(
            #[trigger] self.boxes()[k],
        ) by {
            lemma_step_keeps_box(start[k]);
        }
    }

    /// Draws every box on the canvas, in order.
    pub fn draw(&self, canvas: &mut EngineCanvas)
        requires
            old(canvas).wf(),
        ensures
            final(canvas).wf(),
            final(canvas).spec_width() == old(canvas).spec_width(),
            final(canvas).spec_height() == old(canvas).spec_height(),
            forall|x: int, y: int| #[trigger]
                final(canvas).lit(x, y) == (old(canvas).lit(x, y) || (0 <= x < old(
                    canvas,
                ).spec_width() && 0 <= y < old(canvas).spec_height() && covered(
                    self.boxes(),
                    x,
                    y,
                ))),
    {
        let ghost start = *canvas;
        let mut i: usize = 0;
        while i < self.actors.len()
            invariant
                i <= self.actors@.len(),
                canvas.wf(),
                canvas.spec_width() == start.spec_width(),
                canvas.spec_height() == start.spec_height(),
                forall|x: int, y: int| #[trigger]
                    canvas.lit(x, y) == (start.lit(x, y) || (0 <= x < start.spec_width() && 0 <= y
                        < start.spec_height() && covered(self.boxes().subrange(0, i as int), x, y))),
            decreases self.actors@.len() - i,
        {
            let ghost before = *canvas;
            self.actors[i].draw(canvas);
            assert forall|x: int, y: int| #[trigger]
                canvas.lit(x, y) == (start.lit(x, y) || (0 <= x < start.spec_width() && 0 <= y
                    < start.spec_height() && covered(self.boxes().subrange(0, i + 1), x, y))) by {
                let old_boxes = self.boxes().subrange(0, i as int);
                let new_boxes = self.boxes().subrange(0, i + 1);
                assert(new_boxes[i as int] == self.actors@[i as int]@);
                if covered(old_boxes, x, y) {
                    let k = choose|k: int| 0 <= k < old_boxes.len() && in_box(old_boxes[k], x, y);
                    assert(new_boxes[k] == old_boxes[k]);
                }
                if covered(new_boxes, x, y) && !covered(old_boxes, x, y) {
                    let k = choose|k: int| 0 <= k < new_boxes.len() && in_box(new_boxes[k], x, y);
                    if k < i {
                        assert(old_boxes[k] == new_boxes[k]);
                    }
                }
            }
            i = i + 1;
        }
        assert(self.boxes().subrange(0, self.actors@.len() as int) =~= self.boxes());
    }
}

} // verus!
