//! Terminal rendering: which directives a frame is rendered with, and how
//! a renderer reacts to the terminal refusing one of them.
//!
//! Nothing here writes to a terminal. `print_image` lays a frame out as a
//! plan of directives; a `Renderer` hands the plan out one directive at a
//! time and is told how each write went, so that the caller owns the
//! terminal while the order of writes and the cleanup are decided here.

use vstd::prelude::*;
use crate::brightness::BrightnessMethod;
use crate::matrix::{build_frame, frame_of, grid, lemma_frame_keeps_dimensions};

verus! {

/// How often each glyph is printed, to make up for terminal cells being
/// taller than wide.
pub const STRETCH: usize = 3;

/// A terminal colour.
#[derive(Clone, Copy, Debug, PartialEq, Eq, Structural)]
pub enum Color {
    Black,
    Rgb { r: u8, g: u8, b: u8 },
}

/// Foreground and background colour of the text that follows.
#[derive(Clone, Copy, Debug, PartialEq, Eq, Structural)]
pub struct Attribute {
    pub foreground: Color,
    pub background: Color,
}

/// One thing to send to the terminal.
#[derive(Clone, Copy, Debug, PartialEq, Eq, Structural)]
pub enum Directive {
    /// Set the colours of the text that follows.
    SetAttribute(Attribute),
    /// Print one glyph.
    Print(char),
    /// End the line.
    LineBreak,
    /// Go back to the terminal's default colours.
    ResetColor,
    /// Write out everything queued so far.
    Flush,
}

/// The attribute of a cell in green: a green channel equal to the
/// brightness, no red, no blue, on black.
pub open spec fn green_attribute(level: u8) -> Attribute {
    Attribute { foreground: Color::Rgb { r: 0, g: level, b: 0 }, background: Color::Black }
}

/// The attribute that is set before a cell: none unless rendering in
/// green, and then the green of the cell's brightness.
pub open spec fn cell_attribute(levels: Seq<u8>, position: int, in_green: bool) -> Option<
    Attribute,
> {
    if in_green {
        Some(green_attribute(levels[position]))
    } else {
        None
    }
}

/// The directives of one cell: its attribute, if it has one, then its
/// glyph `STRETCH` times.
pub open spec fn cell_directives(glyph: char, attribute: Option<Attribute>) -> Seq<Directive> {
    let glyphs = seq![Directive::Print(glyph), Directive::Print(glyph), Directive::Print(glyph)];
    match attribute {
        Some(colours) => seq![Directive::SetAttribute(colours)] + glyphs,
        None => glyphs,
    }
}

/// The directives of the first `count` cells of a row, in order.
pub open spec fn cells_directives(
    glyphs: Seq<char>,
    levels: Seq<u8>,
    in_green: bool,
    count: nat,
) -> Seq<Directive>
    decreases count,
{
    if count == 0 {
        Seq::empty()
    } else {
        cells_directives(glyphs, levels, in_green, (count - 1) as nat) + cell_directives(
            glyphs[count - 1],
            cell_attribute(levels, count - 1, in_green),
        )
    }
}

/// The directives of a row: all its cells, then a line break.
pub open spec fn row_directives(glyphs: Seq<char>, levels: Seq<u8>, in_green: bool) -> Seq<
    Directive,
> {
    cells_directives(glyphs, levels, in_green, glyphs.len()) + seq![Directive::LineBreak]
}

/// The directives of the first `count` rows of a frame, in order.
pub open spec fn rows_directives(
    glyphs: Seq<Seq<char>>,
    levels: Seq<Seq<u8>>,
    in_green: bool,
    count: nat,
) -> Seq<Directive>
    decreases count,
{
    if count == 0 {
        Seq::empty()
    } else {
        rows_directives(glyphs, levels, in_green, (count - 1) as nat) + row_directives(
            glyphs[count - 1],
            levels[count - 1],
            in_green,
        )
    }
}

/// The directives of a whole frame: every row, then one colour reset,
/// then one flush.
pub open spec fn frame_directives(glyphs: Seq<Seq<char>>, levels: Seq<Seq<u8>>, in_green: bool) -> Seq<
    Directive,
> {
    rows_directives(glyphs, levels, in_green, glyphs.len()) + seq![
        Directive::ResetColor,
        Directive::Flush,
    ]
}

/// The brightness grid has a row for every glyph row and, when rendering
/// in green, a brightness for every glyph.
pub open spec fn levels_cover(glyphs: Seq<Seq<char>>, levels: Seq<Seq<u8>>, in_green: bool) -> bool {
    &&& glyphs.len() <= levels.len()
    &&& in_green ==> forall|i: int|
        0 <= i < glyphs.len() ==> (#[trigger] glyphs[i]).len() <= levels[i].len()
}

/// The attribute with which a cell of the given brightness is printed in
/// green.
pub fn annotate_text(pixel_brightness: u8) -> (attribute: Attribute)
    ensures
        attribute == green_attribute(pixel_brightness),
{
    let foreground = Color::Rgb { r: 0, g: pixel_brightness, b: 0 };
    Attribute { foreground, background: Color::Black }
}

/// A glyph is a Unicode scalar value. This holds of every `char`; calling
/// it on a glyph taken out of a sequence makes the fact known there.
proof fn lemma_glyph_is_scalar(glyph: char)
    ensures
        0 <= glyph as int <= 0xD7FF || 0xE000 <= glyph as int <= 0x10FFFF,
{
}

/// Tells whether `print_image` accepts the two grids.
pub fn can_print(
    ascii_matrix: &Vec<Vec<char>>,
    brightness_matrix: &Vec<Vec<u8>>,
    in_green: bool,
) -> (accepted: bool)
    ensures
        accepted == levels_cover(grid(ascii_matrix), grid(brightness_matrix), in_green),
{
    if ascii_matrix.len() > brightness_matrix.len() {
        return false;
    }
    if !in_green {
        return true;
    }
    let mut i: usize = 0;
    while i < ascii_matrix.len()
        invariant
            in_green,
            i <= ascii_matrix.len() <= brightness_matrix.len(),
            forall|k: int|
                0 <= k < i ==> (#[trigger] grid(ascii_matrix)[k]).len() <= grid(
                    brightness_matrix,
                )[k].len(),
        decreases ascii_matrix.len() - i,
    {
        if ascii_matrix[i].len() > brightness_matrix[i].len() {
            assert(grid(ascii_matrix)[i as int].len() > grid(brightness_matrix)[i as int].len());
            return false;
        }
        i += 1;
    }
    true
}

/// Lays a frame out for the terminal, row by row and cell by cell.
pub fn print_image(
    ascii_matrix: &Vec<Vec<char>>,
    brightness_matrix: &Vec<Vec<u8>>,
    in_green: bool,
) -> (plan: Vec<Directive>)
    requires
        levels_cover(grid(ascii_matrix), grid(brightness_matrix), in_green),
    ensures
        plan@ == frame_directives(grid(ascii_matrix), grid(brightness_matrix), in_green),
{
    let ghost glyphs = grid(ascii_matrix);
    let ghost levels = grid(brightness_matrix);
    let mut plan: Vec<Directive> = Vec::new();
    let mut i: usize = 0;
    while i < ascii_matrix.len()
        invariant
            i <= ascii_matrix.len(),
            glyphs == grid(ascii_matrix),
            levels == grid(brightness_matrix),
            levels_cover(glyphs, levels, in_green),
            plan@ == rows_directives(glyphs, levels, in_green, i as nat),
        decreases ascii_matrix.len() - i,
    {
        let row = &ascii_matrix[i];
        let brightness_row = &brightness_matrix[i];
        assert(glyphs[i as int] == row@);
        assert(levels[i as int] == brightness_row@);
        let mut j: usize = 0;
        while j < row.len()
            invariant
                j <= row.len(),
                in_green ==> row@.len() <= brightness_row@.len(),
                plan@ == rows_directives(glyphs, levels, in_green, i as nat) + cells_directives(
                    row@,
                    brightness_row@,
                    in_green,
                    j as nat,
                ),
            decreases row.len() - j,
        {
            let glyph: char = row[j];
            proof {
                lemma_glyph_is_scalar(glyph);
            }
            let ghost sent = plan@;
            let ghost earlier = cells_directives(row@, brightness_row@, in_green, j as nat);
            let ghost cell = cell_directives(
                glyph,
                cell_attribute(brightness_row@, j as int, in_green),
            );
            if in_green {
                let attribute = annotate_text(brightness_row[j]);
                plan.push(Directive::SetAttribute(attribute));
            }
            // The glyph, STRETCH times.
            plan.push(Directive::Print(glyph));
            plan.push(Directive::Print(glyph));
            plan.push(Directive::Print(glyph));
            proof {
                assert(plan@ =~= sent + cell);
                assert(cells_directives(row@, brightness_row@, in_green, (j + 1) as nat)
                    == earlier + cell);
                assert(plan@ =~= rows_directives(glyphs, levels, in_green, i as nat) + (earlier
                    + cell));
            }
            j += 1;
        }
        plan.push(Directive::LineBreak);
        proof {
            let earlier = rows_directives(glyphs, levels, in_green, i as nat);
            let row_plan = row_directives(row@, brightness_row@, in_green);
            assert(rows_directives(glyphs, levels, in_green, (i + 1) as nat) == earlier
                + row_plan);
            assert(plan@ =~= earlier + row_plan);
        }
        i += 1;
    }
    plan.push(Directive::ResetColor);
    plan.push(Directive::Flush);
    plan
}

/// Builds the frame of a pixel grid and lays it out for the terminal.
/// The grids of a frame always fit each other, so this accepts every
/// pixel grid.
pub fn render_plan(
    pixel_matrix: &Vec<Vec<[u8; 3]>>,
    method: &BrightnessMethod,
    invert: bool,
    in_green: bool,
) -> (plan: Vec<Directive>)
    ensures
        plan@ == frame_directives(
            frame_of(grid(pixel_matrix), *method, invert).1,
            frame_of(grid(pixel_matrix), *method, invert).0,
            in_green,
        ),
{
    let (brightness_matrix, ascii_matrix) = build_frame(pixel_matrix, method, invert);
    proof {
        lemma_frame_keeps_dimensions(grid(pixel_matrix), *method, invert);
    }
    print_image(&ascii_matrix, &brightness_matrix, in_green)
}

/// Why rendering failed.
#[derive(Clone, Copy, Debug, PartialEq, Eq)]
pub enum RenderError {
    /// The terminal refused a write.
    IoFailure,
}

/// How the terminal took the directive that was sent to it.
#[derive(Clone, Copy, Debug, PartialEq, Eq)]
pub enum Outcome {
    Written,
    Failed,
}

/// What the owner of the terminal has to do next.
#[derive(Clone, Copy, Debug, PartialEq, Eq)]
pub enum Action {
    /// Send this directive, then report how it went.
    Emit(Directive),
    /// Stop: rendering is over, with this result.
    Finish(Result<(), RenderError>),
}

/// Where a rendering stands.
#[derive(Clone, Copy, Debug, PartialEq, Eq)]
pub enum Stage {
    /// The directive of the plan at this position is the next to send.
    Sending(usize),
    /// A write has failed; the colour reset that cleans up is the next
    /// to send.
    Cleaning,
    /// Nothing is left to send.
    Finished(Result<(), RenderError>),
}

/// A stage that sends from the plan points inside it.
pub open spec fn stage_fits(plan: Seq<Directive>, stage: Stage) -> bool {
    stage matches Stage::Sending(position) ==> position < plan.len()
}

/// The stage in which rendering a plan starts.
pub open spec fn first_stage(plan: Seq<Directive>) -> Stage {
    if plan.len() == 0 {
        Stage::Finished(Ok(()))
    } else {
        Stage::Sending(0)
    }
}

/// What to do in a stage.
pub open spec fn action_at(plan: Seq<Directive>, stage: Stage) -> Action {
    match stage {
        Stage::Sending(position) => Action::Emit(plan[position as int]),
        Stage::Cleaning => Action::Emit(Directive::ResetColor),
        Stage::Finished(result) => Action::Finish(result),
    }
}

/// The stage that follows once the directive of a stage has met its
/// outcome.
///
/// A written directive leads to the next one of the plan, and the last
/// one to success. A failed directive abandons the plan for the cleanup.
/// The cleanup leads to the failure being reported, however the cleanup
/// itself went. A finished rendering stays finished.
pub open spec fn stage_after(plan: Seq<Directive>, stage: Stage, outcome: Outcome) -> Stage {
    match stage {
        Stage::Sending(position) => match outcome {
            Outcome::Written => if position + 1 < plan.len() {
                Stage::Sending((position + 1) as usize)
            } else {
                Stage::Finished(Ok(()))
            },
            Outcome::Failed => Stage::Cleaning,
        },
        Stage::Cleaning => Stage::Finished(Err(RenderError::IoFailure)),
        Stage::Finished(result) => Stage::Finished(result),
    }
}

/// The stage reached from the first one once the outcomes have been
/// recorded in order.
pub open spec fn stage_after_all(plan: Seq<Directive>, outcomes: Seq<Outcome>) -> Stage
    decreases outcomes.len(),
{
    if outcomes.len() == 0 {
        first_stage(plan)
    } else {
        stage_after(plan, stage_after_all(plan, outcomes.drop_last()), outcomes.last())
    }
}

/// Hands a plan out directive by directive, and decides what follows
/// from how each write went.
pub struct Renderer {
    plan: Vec<Directive>,
    stage: Stage,
}

impl Renderer {
    #[verifier::type_invariant]
    spec fn well_formed(self) -> bool {
        stage_fits(self.plan@, self.stage)
    }

    /// The plan being rendered.
    pub closed spec fn plan(&self) -> Seq<Directive> {
        self.plan@
    }

    /// The stage the rendering is in.
    pub closed spec fn stage(&self) -> Stage {
        self.stage
    }

    /// Starts rendering a plan.
    pub fn new(plan: Vec<Directive>) -> (renderer: Renderer)
        ensures
            renderer.plan() == plan@,
            renderer.stage() == first_stage(plan@),
    {
        let stage = if plan.len() == 0 {
            Stage::Finished(Ok(()))
        } else {
            Stage::Sending(0)
        };
        Renderer { plan, stage }
    }

    /// What to do now.
    pub fn next_action(&self) -> (action: Action)
        ensures
            action == action_at(self.plan(), self.stage()),
            stage_fits(self.plan(), self.stage()),
    {
        proof {
            use_type_invariant(self);
        }
        match self.stage {
            Stage::Sending(position) => Action::Emit(self.plan[position]),
            Stage::Cleaning => Action::Emit(Directive::ResetColor),
            Stage::Finished(result) => Action::Finish(result),
        }
    }

    /// Takes note of how the directive handed out last was met.
    pub fn record(&mut self, outcome: Outcome)
        ensures
            final(self).plan() == old(self).plan(),
            final(self).stage() == stage_after(old(self).plan(), old(self).stage(), outcome),
    {
        proof {
            use_type_invariant(&*self);
        }
        let length: usize = self.plan.len();
        let next = match self.stage {
            Stage::Sending(position) => match outcome {
                Outcome::Written => if position + 1 < length {
                    Stage::Sending(position + 1)
                } else {
                    Stage::Finished(Ok(()))
                },
                Outcome::Failed => Stage::Cleaning,
            },
            Stage::Cleaning => Stage::Finished(Err(RenderError::IoFailure)),
            Stage::Finished(result) => Stage::Finished(result),
        };
        self.stage = next;
    }
}

/// Directives of one cell: `STRETCH` glyphs, and one attribute before
/// them when rendering in green.
pub open spec fn cell_length(in_green: bool) -> nat {
    if in_green {
        (STRETCH + 1) as nat
    } else {
        STRETCH as nat
    }
}

/// The first `count` outcomes are all `Written`.
pub open spec fn written_before(outcomes: Seq<Outcome>, count: int) -> bool {
    forall|i: int| 0 <= i < count ==> outcomes[i] == Outcome::Written
}

/// Every cell takes the same number of directives, so the first `count`
/// cells of a row take `count` times that number.
pub proof fn lemma_cells_length(glyphs: Seq<char>, levels: Seq<u8>, in_green: bool, count: nat)
    requires
        count <= glyphs.len(),
        in_green ==> count <= levels.len(),
    ensures
        cells_directives(glyphs, levels, in_green, count).len() == count * cell_length(in_green),
    decreases count,
{
    if count > 0 {
        lemma_cells_length(glyphs, levels, in_green, (count - 1) as nat);
        let cell = cell_directives(
            glyphs[count - 1],
            cell_attribute(levels, count - 1, in_green),
        );
        lemma_glyph_is_scalar(glyphs[count - 1]);
        assert(cell.len() == cell_length(in_green));
        let earlier = cells_directives(glyphs, levels, in_green, (count - 1) as nat);
        assert(cells_directives(glyphs, levels, in_green, count) == earlier + cell);
        assert(earlier.len() == (count - 1) * cell_length(in_green));
        assert(count * cell_length(in_green) == (count - 1) * cell_length(in_green) + cell_length(
            in_green,
        )) by (nonlinear_arith);
    } else {
        assert(count * cell_length(in_green) == 0) by (nonlinear_arith)
            requires
                count == 0,
        ;
    }
}

/// A row of `n` glyphs takes `n` cells and one line break.
pub proof fn lemma_row_length(glyphs: Seq<char>, levels: Seq<u8>, in_green: bool)
    requires
        in_green ==> glyphs.len() <= levels.len(),
    ensures
        row_directives(glyphs, levels, in_green).len() == glyphs.len() * cell_length(in_green) + 1,
        row_directives(glyphs, levels, in_green).last() == Directive::LineBreak,
{
    lemma_cells_length(glyphs, levels, in_green, glyphs.len());
}

/// Every frame, the empty one included, ends with one colour reset and
/// one flush, in that order.
pub proof fn lemma_frame_ends_with_reset_and_flush(
    glyphs: Seq<Seq<char>>,
    levels: Seq<Seq<u8>>,
    in_green: bool,
)
    ensures
        ({
            let plan = frame_directives(glyphs, levels, in_green);
            &&& plan.len() >= 2
            &&& plan[plan.len() - 2] == Directive::ResetColor
            &&& plan[plan.len() - 1] == Directive::Flush
        }),
{
}

/// When a write fails, the next thing sent is a colour reset, and after
/// it the failure is reported, however the reset itself went.
pub proof fn lemma_failure_is_cleaned_up_then_reported(
    plan: Seq<Directive>,
    position: usize,
    cleanup: Outcome,
)
    requires
        position < plan.len(),
    ensures
        ({
            let failed = stage_after(plan, Stage::Sending(position), Outcome::Failed);
            let reported = stage_after(plan, failed, cleanup);
            &&& action_at(plan, failed) == Action::Emit(Directive::ResetColor)
            &&& action_at(plan, reported) == Action::Finish(Err(RenderError::IoFailure))
        }),
{
}

/// Once rendering has finished, its result no longer changes.
pub proof fn lemma_finished_stays_finished(
    plan: Seq<Directive>,
    result: Result<(), RenderError>,
    outcome: Outcome,
)
    ensures
        stage_after(plan, Stage::Finished(result), outcome) == Stage::Finished(result),
{
}

/// Every stage that a run reaches points inside the plan.
pub proof fn lemma_run_stays_inside_plan(plan: Seq<Directive>, outcomes: Seq<Outcome>)
    ensures
        stage_fits(plan, stage_after_all(plan, outcomes)),
    decreases outcomes.len(),
{
    if outcomes.len() > 0 {
        lemma_run_stays_inside_plan(plan, outcomes.drop_last());
    }
}

/// While every write succeeds the plan is sent in order, one directive
/// per outcome, and rendering succeeds once the whole plan is written.
pub proof fn lemma_written_plan_succeeds(plan: Seq<Directive>, outcomes: Seq<Outcome>)
    requires
        plan.len() <= usize::MAX,
        written_before(outcomes, outcomes.len() as int),
    ensures
        outcomes.len() < plan.len() ==> stage_after_all(plan, outcomes) == Stage::Sending(
            outcomes.len() as usize,
        ) && action_at(plan, stage_after_all(plan, outcomes)) == Action::Emit(
            plan[outcomes.len() as int],
        ),
        outcomes.len() >= plan.len() ==> stage_after_all(plan, outcomes) == Stage::Finished(
            Ok(()),
        ),
    decreases outcomes.len(),
{
    if outcomes.len() > 0 {
        lemma_written_plan_succeeds(plan, outcomes.drop_last());
    }
}

/// A run whose first failed write is the one at `failure` sends the
/// colour reset right after it and reports the failure after that,
/// whatever the later outcomes are.
pub proof fn lemma_failed_write_is_reported(
    plan: Seq<Directive>,
    outcomes: Seq<Outcome>,
    failure: int,
)
    requires
        plan.len() <= usize::MAX,
        0 <= failure < plan.len(),
        failure < outcomes.len(),
        outcomes[failure] == Outcome::Failed,
        written_before(outcomes, failure),
    ensures
        outcomes.len() == failure + 1 ==> stage_after_all(plan, outcomes) == Stage::Cleaning,
        outcomes.len() > failure + 1 ==> stage_after_all(plan, outcomes) == Stage::Finished(
            Err(RenderError::IoFailure),
        ),
    decreases outcomes.len(),
{
    let earlier = outcomes.drop_last();
    if outcomes.len() == failure + 1 {
        lemma_written_plan_succeeds(plan, earlier);
    } else {
        lemma_failed_write_is_reported(plan, earlier, failure);
    }
}

/// Rendering succeeds only if every directive of the plan was written:
/// no failed write is passed over.
pub proof fn lemma_success_means_all_written(plan: Seq<Directive>, outcomes: Seq<Outcome>)
    requires
        plan.len() <= usize::MAX,
        stage_after_all(plan, outcomes) == Stage::Finished(Ok(())),
    ensures
        outcomes.len() >= plan.len(),
        written_before(outcomes, plan.len() as int),
{
    lemma_run_shape(plan, outcomes);
}

/// What a run looks like in each stage it can be in.
proof fn lemma_run_shape(plan: Seq<Directive>, outcomes: Seq<Outcome>)
    requires
        plan.len() <= usize::MAX,
    ensures
        match stage_after_all(plan, outcomes) {
            Stage::Sending(position) => position == outcomes.len() && written_before(
                outcomes,
                outcomes.len() as int,
            ),
            Stage::Cleaning => 0 < outcomes.len() <= plan.len(),
            Stage::Finished(Ok(_)) => outcomes.len() >= plan.len() && written_before(
                outcomes,
                plan.len() as int,
            ),
            Stage::Finished(Err(_)) => true,
        },
    decreases outcomes.len(),
{
    if outcomes.len() > 0 {
        let earlier = outcomes.drop_last();
        lemma_run_shape(plan, earlier);
        lemma_run_stays_inside_plan(plan, earlier);
        assert forall|i: int| 0 <= i < earlier.len() implies earlier[i] == outcomes[i] by {}
        match stage_after_all(plan, earlier) {
            Stage::Sending(position) => {
                assert(written_before(earlier, earlier.len() as int));
                assert forall|i: int| 0 <= i < earlier.len() implies outcomes[i]
                    == Outcome::Written by {
                    assert(earlier[i] == Outcome::Written);
                }
            },
            Stage::Finished(Ok(_)) => {
                assert forall|i: int| 0 <= i < plan.len() implies outcomes[i]
                    == Outcome::Written by {
                    assert(earlier[i] == Outcome::Written);
                }
            },
            _ => {},
        }
    }
}

} // verus!
