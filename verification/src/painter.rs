use vstd::prelude::*;
use crate::batcher::{batches_of, build, has_callback, DrawBatch, Primitive};
use crate::error::PainterError;
use crate::pixel_buffer::{handle_for, PixelGrid, TextureHandle};
use crate::texture_store::{
    group_deltas, lemma_apply_all_concat, queue_deltas, spec_apply_all, spec_outcomes,
    TextureAction, TextureId, TextureStore, TexturesDelta,
};

verus! {

/// A multiplier applied to the source or the destination when blending.
#[derive(Clone, Copy, Debug, PartialEq, Eq, Structural)]
pub enum BlendFactor {
    Zero,
    One,
    Src,
    OneMinusSrc,
    SrcAlpha,
    OneMinusSrcAlpha,
    Dst,
    OneMinusDst,
    DstAlpha,
    OneMinusDstAlpha,
    SrcAlphaSaturated,
    Constant,
    OneMinusConstant,
}

/// How the weighted source and destination are combined.
#[derive(Clone, Copy, Debug, PartialEq, Eq, Structural)]
pub enum BlendOperation {
    Add,
    Subtract,
    ReverseSubtract,
    Min,
    Max,
}

#[derive(Clone, Copy, Debug, PartialEq, Eq, Structural)]
pub struct BlendComponent {
    pub src_factor: BlendFactor,
    pub dst_factor: BlendFactor,
    pub operation: BlendOperation,
}

#[derive(Clone, Copy, Debug, PartialEq, Eq, Structural)]
pub struct BlendMode {
    pub color: BlendComponent,
    pub alpha: BlendComponent,
}

/// The scissor of a canvas: the whole surface, or the clip rectangle of the
/// batch at a position in the frame's batch list.
#[derive(Clone, Copy, Debug, PartialEq, Eq, Structural)]
pub enum Scissor {
    Default,
    Batch(usize),
}

/// One step that the host renderer performs on its canvas.
#[derive(Clone, Copy, Debug, PartialEq, Eq, Structural)]
pub enum DrawCommand {
    SetBlend(BlendMode),
    /// Clip to the rectangle of the batch at this position.
    SetScissor(usize),
    /// Draw the mesh of the batch at this position with the given texture.
    DrawMesh { batch: usize, texture_id: TextureId, texture: TextureHandle },
    ResetScissor,
}

/// The blend and scissor state of a canvas.
#[derive(Clone, Copy, Debug, PartialEq, Eq, Structural)]
pub struct CanvasState {
    pub blend: BlendMode,
    pub scissor: Scissor,
}

/// The steps of one `draw`, how many batches they draw, and whether a batch
/// named a texture that is not live.
#[derive(Debug)]
pub struct DrawPlan {
    pub commands: Vec<DrawCommand>,
    pub drawn: usize,
    pub outcome: Result<(), PainterError>,
}

/// What one `update` did: the report of each texture delta, in queue order,
/// and whether the frame's primitives could be batched.
#[derive(Debug)]
pub struct FrameUpdate {
    pub textures: Vec<Result<TextureAction, PainterError>>,
    pub batching: Result<(), PainterError>,
}

/// Premultiplied-alpha "over" compositing.
pub open spec fn premultiplied_over() -> BlendMode {
    BlendMode {
        color: BlendComponent {
            src_factor: BlendFactor::One,
            dst_factor: BlendFactor::OneMinusSrcAlpha,
            operation: BlendOperation::Add,
        },
        alpha: BlendComponent {
            src_factor: BlendFactor::OneMinusDstAlpha,
            dst_factor: BlendFactor::One,
            operation: BlendOperation::Add,
        },
    }
}

/// The canvas after one command.
pub open spec fn step(state: CanvasState, command: DrawCommand) -> CanvasState {
    match command {
        DrawCommand::SetBlend(mode) => CanvasState { blend: mode, scissor: state.scissor },
        DrawCommand::SetScissor(batch) => CanvasState {
            blend: state.blend,
            scissor: Scissor::Batch(batch),
        },
        DrawCommand::DrawMesh { .. } => state,
        DrawCommand::ResetScissor => CanvasState { blend: state.blend, scissor: Scissor::Default },
    }
}

/// The canvas after a list of commands, performed first to last.
pub open spec fn run(state: CanvasState, commands: Seq<DrawCommand>) -> CanvasState
    decreases commands.len(),
{
    if commands.len() == 0 {
        state
    } else {
        step(run(state, commands.drop_last()), commands.last())
    }
}

/// For each batch in order: clip to its rectangle, then draw its mesh with
/// the handle of its texture.
pub open spec fn batch_commands(
    textures: Map<TextureId, PixelGrid>,
    batches: Seq<DrawBatch>,
) -> Seq<DrawCommand>
    decreases batches.len(),
{
    if batches.len() == 0 {
        Seq::empty()
    } else {
        let at = (batches.len() - 1) as usize;
        batch_commands(textures, batches.drop_last()).push(DrawCommand::SetScissor(at)).push(
            DrawCommand::DrawMesh {
                batch: at,
                texture_id: batches.last().texture_id,
                texture: handle_for(textures[batches.last().texture_id]),
            },
        )
    }
}

/// The steps of a frame: install the fixed blend, draw the batches, then put
/// back the full-surface scissor and the blend that was there before.
pub open spec fn frame_commands(
    textures: Map<TextureId, PixelGrid>,
    batches: Seq<DrawBatch>,
    previous: BlendMode,
) -> Seq<DrawCommand> {
    (seq![DrawCommand::SetBlend(premultiplied_over())] + batch_commands(textures, batches)).push(
        DrawCommand::ResetScissor,
    ).push(DrawCommand::SetBlend(previous))
}

/// The fixed blend configuration that every frame is drawn under.
pub fn premultiplied_blend() -> (mode: BlendMode)
    ensures
        mode == premultiplied_over(),
{
    BlendMode {
        color: BlendComponent {
            src_factor: BlendFactor::One,
            dst_factor: BlendFactor::OneMinusSrcAlpha,
            operation: BlendOperation::Add,
        },
        alpha: BlendComponent {
            src_factor: BlendFactor::OneMinusDstAlpha,
            dst_factor: BlendFactor::One,
            operation: BlendOperation::Add,
        },
    }
}

/// Owns the live textures, the queue of texture deltas still to apply, the
/// current frame's primitives and the batches built from them.
pub struct Painter {
    shapes: Vec<Primitive>,
    textures_delta: Vec<TexturesDelta>,
    paint_jobs: Vec<DrawBatch>,
    textures: TextureStore,
}

impl Default for Painter {
    /// A painter with no textures, no queued deltas and an empty frame.
    fn default() -> (painter: Painter)
        ensures
            painter.wf(),
            painter.jobs() == Seq::<DrawBatch>::empty(),
            painter.live() == Map::<TextureId, PixelGrid>::empty(),
            painter.primitives() == Seq::<Primitive>::empty(),
            painter.pending() == Seq::<TexturesDelta>::empty(),
    {
        Painter::new()
    }
}

impl Painter {
    /// The batches of the current frame, in drawing order.
    pub closed spec fn jobs(&self) -> Seq<DrawBatch> {
        self.paint_jobs@
    }

    /// The primitives of the current frame.
    pub closed spec fn primitives(&self) -> Seq<Primitive> {
        self.shapes@
    }

    /// The groups of texture deltas that wait to be applied, oldest first.
    pub closed spec fn pending(&self) -> Seq<TexturesDelta> {
        self.textures_delta@
    }

    /// The live textures.
    pub closed spec fn live(&self) -> Map<TextureId, PixelGrid> {
        self.textures@
    }

    pub closed spec fn wf(&self) -> bool {
        self.textures.wf()
    }

    /// A painter with no textures, no queued deltas and an empty frame.
    pub fn new() -> (painter: Painter)
        ensures
            painter.wf(),
            painter.jobs() == Seq::<DrawBatch>::empty(),
            painter.live() == Map::<TextureId, PixelGrid>::empty(),
            painter.primitives() == Seq::<Primitive>::empty(),
            painter.pending() == Seq::<TexturesDelta>::empty(),
    {
        Painter {
            shapes: Vec::new(),
            textures_delta: Vec::new(),
            paint_jobs: Vec::new(),
            textures: TextureStore::new(),
        }
    }

    /// Replaces the primitives of the current frame.
    pub fn set_shapes(&mut self, shapes: Vec<Primitive>)
        ensures
            final(self).primitives() == shapes@,
            final(self).jobs() == old(self).jobs(),
            final(self).live() == old(self).live(),
            final(self).wf() == old(self).wf(),
            final(self).pending() == old(self).pending(),
    {
        self.shapes = shapes;
    }

    /// Queues one group of texture deltas behind those that already wait.
    pub fn queue_delta(&mut self, delta: TexturesDelta)
        ensures
            final(self).pending() == old(self).pending().push(delta),
            final(self).jobs() == old(self).jobs(),
            final(self).live() == old(self).live(),
            final(self).wf() == old(self).wf(),
            final(self).primitives() == old(self).primitives(),
    {
        self.textures_delta.push(delta);
    }

    /// Forgets the batches of the previous frame.
    pub fn clear(&mut self)
        ensures
            final(self).jobs() == Seq::<DrawBatch>::empty(),
            final(self).live() == old(self).live(),
            final(self).wf() == old(self).wf(),
            final(self).primitives() == old(self).primitives(),
            final(self).pending() == old(self).pending(),
    {
        self.paint_jobs.clear();
    }

    /// Applies one group of texture deltas at once: its sets, then its frees.
    pub fn update_textures(&mut self, textures_delta: &TexturesDelta) -> (outcomes: Vec<
        Result<TextureAction, PainterError>,
    >)
        requires
            old(self).wf(),
        ensures
            final(self).wf(),
            final(self).live() == spec_apply_all(old(self).live(), group_deltas(*textures_delta)),
            outcomes@ == spec_outcomes(old(self).live(), group_deltas(*textures_delta)),
            final(self).jobs() == old(self).jobs(),
            final(self).primitives() == old(self).primitives(),
            final(self).pending() == old(self).pending(),
    {
        let mut outcomes: Vec<Result<TextureAction, PainterError>> = Vec::new();
        self.textures.apply_group(textures_delta, &mut outcomes);
        proof {
            assert(outcomes@ =~= spec_outcomes(old(self).live(), group_deltas(*textures_delta)));
        }
        outcomes
    }

    /// Drains the queue of texture deltas into the store, oldest group
    /// first, then rebuilds the batches from the frame's primitives. A frame
    /// that holds a callback primitive gets no batches at all.
    pub fn update(&mut self) -> (report: FrameUpdate)
        requires
            old(self).wf(),
        ensures
            final(self).wf(),
            final(self).pending() == Seq::<TexturesDelta>::empty(),
            final(self).primitives() == old(self).primitives(),
            final(self).live() == spec_apply_all(
                old(self).live(),
                queue_deltas(old(self).pending()),
            ),
            report.textures@ == spec_outcomes(old(self).live(), queue_deltas(old(self).pending())),
            has_callback(old(self).primitives()) ==> report.batching == Err::<(), PainterError>(
                PainterError::UnsupportedPrimitive,
            ) && final(self).jobs() == Seq::<DrawBatch>::empty(),
            !has_callback(old(self).primitives()) ==> report.batching == Ok::<(), PainterError>(())
                && final(self).jobs() == batches_of(old(self).primitives()),
    {
        let mut pending: Vec<TexturesDelta> = Vec::new();
        std::mem::swap(&mut self.textures_delta, &mut pending);
        let ghost start = self.textures@;
        let mut textures: Vec<Result<TextureAction, PainterError>> = Vec::new();
        let mut k: usize = 0;
        while k < pending.len()
            invariant
                k <= pending@.len(),
                self.textures.wf(),
                self.shapes == old(self).shapes,
                self.textures_delta@ == Seq::<TexturesDelta>::empty(),
                self.textures@ == spec_apply_all(start, queue_deltas(pending@.take(k as int))),
                textures@ == spec_outcomes(start, queue_deltas(pending@.take(k as int))),
            decreases pending@.len() - k,
        {
            proof {
                assert(pending@.take(k + 1).drop_last() =~= pending@.take(k as int));
                assert(pending@.take(k + 1).last() == pending@[k as int]);
                lemma_apply_all_concat(
                    start,
                    queue_deltas(pending@.take(k as int)),
                    group_deltas(pending@[k as int]),
                );
            }
            self.textures.apply_group(&pending[k], &mut textures);
            k += 1;
        }
        proof {
            assert(pending@.take(k as int) =~= pending@);
        }
        match build(&self.shapes) {
            Ok(batches) => {
                self.paint_jobs = batches;
                FrameUpdate { textures, batching: Ok(()) }
            },
            Err(e) => {
                self.paint_jobs = Vec::new();
                FrameUpdate { textures, batching: Err(e) }
            },
        }
    }

    /// Plans the frame's draw calls for a canvas whose blend mode is
    /// `previous`. Batches are drawn in order up to the first whose texture
    /// is not live; whether or not one is missing, the plan ends by putting
    /// back the full-surface scissor and `previous`.
    pub fn draw(&self, previous: BlendMode) -> (plan: DrawPlan)
        requires
            self.wf(),
        ensures
            plan.drawn <= self.jobs().len(),
            forall|i: int|
                0 <= i < plan.drawn ==> self.live().dom().contains(
                    (#[trigger] self.jobs()[i]).texture_id,
                ),
            plan.drawn < self.jobs().len() ==> !self.live().dom().contains(
                self.jobs()[plan.drawn as int].texture_id,
            ) && plan.outcome == Err::<(), PainterError>(PainterError::UnknownTexture),
            plan.drawn == self.jobs().len() ==> plan.outcome == Ok::<(), PainterError>(()),
            plan.commands@ == frame_commands(
                self.live(),
                self.jobs().take(plan.drawn as int),
                previous,
            ),
    {
        let mut commands: Vec<DrawCommand> = Vec::new();
        commands.push(DrawCommand::SetBlend(premultiplied_blend()));
        let mut outcome: Result<(), PainterError> = Ok(());
        let mut i: usize = 0;
        while i < self.paint_jobs.len() && outcome.is_ok()
            invariant
                self.wf(),
                i <= self.paint_jobs@.len(),
                forall|k: int|
                    0 <= k < i ==> self.textures@.dom().contains(
                        (#[trigger] self.paint_jobs@[k]).texture_id,
                    ),
                outcome is Err ==> i < self.paint_jobs@.len() && !self.textures@.dom().contains(
                    self.paint_jobs@[i as int].texture_id,
                ) && outcome == Err::<(), PainterError>(PainterError::UnknownTexture),
                outcome is Ok ==> outcome == Ok::<(), PainterError>(()),
                commands@ == seq![DrawCommand::SetBlend(premultiplied_over())] + batch_commands(
                    self.textures@,
                    self.paint_jobs@.take(i as int),
                ),
            decreases self.paint_jobs@.len() - i, if outcome is Ok { 1int } else { 0int },
        {
            let batch = self.paint_jobs[i];
            match self.textures.lookup(batch.texture_id) {
                Ok(texture) => {
                    proof {
                        let next = self.paint_jobs@.take(i + 1);
                        assert(next.drop_last() =~= self.paint_jobs@.take(i as int));
                        assert(next.last() == batch);
                        let head = seq![DrawCommand::SetBlend(premultiplied_over())];
                        let body = batch_commands(self.textures@, self.paint_jobs@.take(i as int));
                        let a = DrawCommand::SetScissor(i);
                        let b = DrawCommand::DrawMesh {
                            batch: i,
                            texture_id: batch.texture_id,
                            texture,
                        };
                        assert((head + body).push(a).push(b) =~= head + body.push(a).push(b));
                    }
                    commands.push(DrawCommand::SetScissor(i));
                    commands.push(
                        DrawCommand::DrawMesh { batch: i, texture_id: batch.texture_id, texture },
                    );
                    i += 1;
                },
                Err(e) => {
                    outcome = Err(e);
                },
            }
        }
        commands.push(DrawCommand::ResetScissor);
        commands.push(DrawCommand::SetBlend(previous));
        DrawPlan { commands, drawn: i, outcome }
    }

    /// The batches of the current frame.
    pub fn paint_jobs(&self) -> (batches: &Vec<DrawBatch>)
        ensures
            batches@ == self.jobs(),
    {
        &self.paint_jobs
    }

    /// The store of live textures.
    pub fn textures(&self) -> (store: &TextureStore)
        ensures
            store@ == self.live(),
            store.wf() == self.wf(),
    {
        &self.textures
    }
}

/// Whatever the canvas held and whatever was drawn, a frame's commands leave
/// the canvas with the full-surface scissor and the blend mode named as the
/// previous one.
pub proof fn lemma_draw_restores_canvas(
    textures: Map<TextureId, PixelGrid>,
    batches: Seq<DrawBatch>,
    state: CanvasState,
)
    ensures
        run(state, frame_commands(textures, batches, state.blend)) == (CanvasState {
            blend: state.blend,
            scissor: Scissor::Default,
        }),
{
    let body = seq![DrawCommand::SetBlend(premultiplied_over())] + batch_commands(
        textures,
        batches,
    );
    let reset = body.push(DrawCommand::ResetScissor);
    let all = reset.push(DrawCommand::SetBlend(state.blend));
    reveal_with_fuel(run, 3);
    assert(all.drop_last() =~= reset);
    assert(reset.drop_last() =~= body);
    assert(all.last() == DrawCommand::SetBlend(state.blend));
    assert(reset.last() == DrawCommand::ResetScissor);
}

} // verus!
