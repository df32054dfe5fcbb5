//! The per-view frame plan of the render-graph node: the point-splat pass
//! followed by the eye-dome-lighting pass, as an explicit command
//! sequence. A missing pipeline or bind group is a normal transient state
//! while asynchronous compilation finishes: the plan silently omits the
//! affected draws and the next frame retries.

use vstd::prelude::*;

verus! {

/// How the lighting strength push constant is derived from the view's
/// projection: the constant one for perspective views, the reciprocal of
/// the projection's depth-scale term for orthographic ones. The
/// floating-point value itself is computed at the GPU boundary.
#[derive(Clone, Copy, PartialEq, Eq, Structural, Debug)]
pub enum EdlStrengthKind {
    Perspective,
    OrthographicInverseDepthScale,
}

/// What the node reads of one view.
#[derive(Clone, Copy, PartialEq, Eq, Structural, Debug)]
pub struct NodeViewInput {
    /// The view uniform's dynamic offset.
    pub view_uniform_offset: u32,
    /// Whether the view + clipping-plane bind group is built.
    pub bind_group_present: bool,
    /// Whether the per-model uniform bind group is built.
    pub model_bind_group_present: bool,
    /// Whether the eye-dome pipeline variant has finished compiling.
    pub eye_dome_pipeline_compiled: bool,
    /// Whether the view projects perspectively.
    pub perspective: bool,
}

/// What the node reads of one draw-list entry.
#[derive(Clone, Copy, PartialEq, Eq, Structural, Debug)]
pub struct NodeDrawItem {
    pub entity: u64,
    /// Whether the splat pipeline variant has finished compiling.
    pub pipeline_compiled: bool,
    pub pipeline_id: usize,
    /// Whether the prepared asset still exists for the entity's handle.
    pub asset_present: bool,
    /// Whether the prepared asset's bind group is built.
    pub bind_group_present: bool,
    pub num_points: u32,
    /// The dynamic offset index of the entity's model uniform.
    pub model_index: u32,
}

/// One recorded GPU command of the frame plan.
#[derive(Clone, Copy, PartialEq, Eq, Structural, Debug)]
pub enum RenderCommand {
    /// Begin the splat pass: load color and depth, clear the auxiliary
    /// per-pixel depth target.
    BeginSplatPass,
    SetViewBindGroup { offset: u32 },
    SetQuadVertexBuffer,
    SetPipeline { id: usize },
    SetEntityBindGroup { entity: u64 },
    SetModelBindGroup { index: u32 },
    /// Four quad-corner vertices, instanced once per point.
    DrawQuadInstanced { instances: u32 },
    /// Begin the lighting pass: load the color target.
    BeginEyeDomePass,
    SetEyeDomeStrength { kind: EdlStrengthKind },
    SetEyeDomeBindGroup,
    /// The full-screen quad of the lighting composite.
    DrawFullScreen,
}

/// The commands one draw-list entry contributes: nothing while its
/// pipeline is still compiling or its asset or bind group is gone, else
/// the pipeline, the two per-entity bind groups, and one instanced draw.
pub open spec fn spec_item_commands(item: NodeDrawItem) -> Seq<RenderCommand> {
    if item.pipeline_compiled && item.asset_present && item.bind_group_present {
        seq![
            RenderCommand::SetPipeline { id: item.pipeline_id },
            RenderCommand::SetEntityBindGroup { entity: item.entity },
            RenderCommand::SetModelBindGroup { index: item.model_index },
            RenderCommand::DrawQuadInstanced { instances: item.num_points },
        ]
    } else {
        Seq::empty()
    }
}

/// The splat-pass commands of a prefix of the draw list, in list order.
pub open spec fn spec_splat_commands(items: Seq<NodeDrawItem>) -> Seq<RenderCommand>
    decreases items.len(),
{
    if items.len() == 0 {
        Seq::empty()
    } else {
        spec_splat_commands(items.drop_last()) + spec_item_commands(items.last())
    }
}

/// The lighting-pass commands: strength from the projection kind, then
/// the composite draw; empty while the pipeline is still compiling.
pub open spec fn spec_eye_dome_commands(view: NodeViewInput) -> Seq<RenderCommand> {
    if view.eye_dome_pipeline_compiled {
        seq![
            RenderCommand::BeginEyeDomePass,
            RenderCommand::SetEyeDomeStrength {
                kind: if view.perspective {
                    EdlStrengthKind::Perspective
                } else {
                    EdlStrengthKind::OrthographicInverseDepthScale
                },
            },
            RenderCommand::SetEyeDomeBindGroup,
            RenderCommand::SetQuadVertexBuffer,
            RenderCommand::DrawFullScreen,
        ]
    } else {
        Seq::empty()
    }
}

/// The whole frame plan of one view: the splat pass, skipped but for the
/// clearing pass begin when a view-level bind group is missing, then the
/// lighting pass.
pub open spec fn spec_frame_plan(view: NodeViewInput, items: Seq<NodeDrawItem>) -> Seq<
    RenderCommand,
> {
    if !(view.bind_group_present && view.model_bind_group_present) {
        seq![RenderCommand::BeginSplatPass]
    } else {
        seq![
            RenderCommand::BeginSplatPass,
            RenderCommand::SetViewBindGroup { offset: view.view_uniform_offset },
            RenderCommand::SetQuadVertexBuffer,
        ] + spec_splat_commands(items) + spec_eye_dome_commands(view)
    }
}

/// Records the frame plan of one view: the splat pass over the draw list,
/// then the eye-dome composite. Entries whose pipeline, asset or bind
/// group is not ready are omitted without error; a missing view-level
/// bind group omits every draw of the frame, and a still-compiling
/// lighting pipeline omits the lighting pass.
pub fn plan_frame(view: NodeViewInput, items: &Vec<NodeDrawItem>) -> (r: Vec<RenderCommand>)
    ensures
        r@ == spec_frame_plan(view, items@),
{
    let mut r: Vec<RenderCommand> = Vec::new();
    r.push(RenderCommand::BeginSplatPass);
    if !(view.bind_group_present && view.model_bind_group_present) {
        proof {
            assert(r@ =~= spec_frame_plan(view, items@));
        }
        return r;
    }
    r.push(RenderCommand::SetViewBindGroup { offset: view.view_uniform_offset });
    r.push(RenderCommand::SetQuadVertexBuffer);
    let ghost header = r@;
    let mut i: usize = 0;
    while i < items.len()
        invariant
            i <= items@.len(),
            r@ == header + spec_splat_commands(items@.subrange(0, i as int)),
        decreases items@.len() - i,
    {
        let ghost pre = items@.subrange(0, i as int);
        let ghost cur = items@.subrange(0, i as int + 1);
        proof {
            assert(cur.drop_last() =~= pre);
            assert(cur.last() == items@[i as int]);
        }
        let item = items[i];
        if item.pipeline_compiled && item.asset_present && item.bind_group_present {
            r.push(RenderCommand::SetPipeline { id: item.pipeline_id });
            r.push(RenderCommand::SetEntityBindGroup { entity: item.entity });
            r.push(RenderCommand::SetModelBindGroup { index: item.model_index });
            r.push(RenderCommand::DrawQuadInstanced { instances: item.num_points });
        }
        proof {
            assert(r@ =~= header + spec_splat_commands(cur));
        }
        i = i + 1;
    }
    proof {
        assert(items@.subrange(0, items@.len() as int) =~= items@);
    }
    if view.eye_dome_pipeline_compiled {
        r.push(RenderCommand::BeginEyeDomePass);
        r.push(RenderCommand::SetEyeDomeStrength {
            kind: if view.perspective {
                EdlStrengthKind::Perspective
            } else {
                EdlStrengthKind::OrthographicInverseDepthScale
            },
        });
        r.push(RenderCommand::SetEyeDomeBindGroup);
        r.push(RenderCommand::SetQuadVertexBuffer);
        r.push(RenderCommand::DrawFullScreen);
    }
    proof {
        assert(r@ =~= spec_frame_plan(view, items@));
    }
    r
}

} // verus!
