//! Plans of the vision model: ViT blocks and the resampler.

use crate::dispatch::{
    push_whole, whole, BindGroup, Buf, Entry, GroupModel, Plan, PlanModel, Source, Step,
    UniformBlock, UniformModel,
};
use crate::kernels::{VitPipeline, ResamplerPipeline, Kernel, Layout};
use crate::num::{ceil_div, div_ceil_u32, law_groups_cover_items};
use crate::params::{ResamplerOffsets, ResamplerParams, VitBlockOffsets, VitParams};
use vstd::prelude::*;

verus! {

/// Whether a kernel of `items` threads can be dispatched in workgroups of 256.
pub open spec fn dispatchable(items: int) -> bool {
    0 <= items <= u32::MAX - 255
}

/// A kernel of `items` threads in workgroups of 256, with the only bind group.
pub open spec fn over_items(kernel: Kernel, items: int) -> Step {
    Step::Run { kernel, group: 0, x: ceil_div(items, 256) as u32, y: 1, z: 1 }
}

fn run_over_items(kernel: Kernel, items: u32) -> (s: Step)
    ensures
        s == over_items(kernel, items as int),
{
    Step::Run { kernel, group: 0, x: div_ceil_u32(items, 256), y: 1, z: 1 }
}

/// The bind group of the ViT kernels.
pub open spec fn vit_group() -> GroupModel {
    GroupModel {
        layout: Layout::Vit,
        entries: seq![
            whole(0, Buf::VisionBlob),
            whole(1, Buf::VisionActivations),
            whole(2, Buf::VisionKqv),
            whole(3, Buf::VisionFfn),
            whole(4, Buf::Uniforms(0)),
            whole(5, Buf::Uniforms(1)),
        ],
    }
}

fn vit_bind_group() -> (g: BindGroup)
    ensures
        g@ == vit_group(),
{
    let mut entries: Vec<Entry> = Vec::new();
    push_whole(&mut entries, 0, Buf::VisionBlob);
    push_whole(&mut entries, 1, Buf::VisionActivations);
    push_whole(&mut entries, 2, Buf::VisionKqv);
    push_whole(&mut entries, 3, Buf::VisionFfn);
    push_whole(&mut entries, 4, Buf::Uniforms(0));
    push_whole(&mut entries, 5, Buf::Uniforms(1));
    let g = BindGroup { layout: Layout::Vit, entries };
    assert(g@ =~~= vit_group());
    g
}

/// A plan with two uniform blocks and one bind group, on buffers that exist.
pub open spec fn vision_model(
    offsets: Seq<u32>,
    params: Seq<u32>,
    group: GroupModel,
    steps: Seq<Step>,
) -> PlanModel {
    PlanModel {
        buffers: Seq::empty(),
        uniforms: seq![
            UniformModel { buf: Buf::Uniforms(0), words: offsets },
            UniformModel { buf: Buf::Uniforms(1), words: params },
        ],
        groups: seq![group],
        steps,
        filled: Seq::empty(),
        reads: Seq::empty(),
    }
}

fn vision_plan(
    offsets: Vec<u32>,
    params: Vec<u32>,
    group: BindGroup,
    steps: Vec<Step>,
) -> (p: Plan)
    ensures
        p@ == vision_model(offsets@, params@, group@, steps@),
{
    let p = Plan {
        buffers: Vec::new(),
        uniforms: vec![
            UniformBlock { buf: Buf::Uniforms(0), words: offsets },
            UniformBlock { buf: Buf::Uniforms(1), words: params },
        ],
        groups: vec![group],
        steps,
        filled: Vec::new(),
        reads: Vec::new(),
    };
    assert(p@ =~~= vision_model(offsets@, params@, group@, steps@));
    p
}

/// The steps of a ViT block, all in one submission.
pub open spec fn vit_block_steps(p: VitParams) -> Seq<Step> {
    let n = p.n_tokens as int;
    let h = p.hidden_dim as int;
    seq![
        over_items(Kernel::VitLn1, n),
        over_items(Kernel::VitQkv, n * h * 3),
        over_items(Kernel::VitAttn, n * p.n_heads),
        over_items(Kernel::VitAttnProj, n * h),
        over_items(Kernel::VitLn2, n),
        over_items(Kernel::VitFfnUp, n * p.mlp_dim),
        over_items(Kernel::VitFfnDown, n * h),
        Step::Submit,
    ]
}

impl VitPipeline {
    /// Plans one ViT transformer block.
    pub fn run_vit_block(&self, offsets: &VitBlockOffsets, params: &VitParams) -> (plan: Plan)
        requires
            dispatchable(params.n_tokens as int),
            dispatchable(params.n_tokens * params.hidden_dim * 3),
            dispatchable(params.n_tokens * params.n_heads),
            dispatchable(params.n_tokens * params.mlp_dim),
        ensures
            plan@ == vision_model(
                offsets.block(),
                params.block(),
                vit_group(),
                vit_block_steps(*params),
            ),
            plan@.uniforms.len() == 2 && plan@.groups.len() == 1,
            plan@.groups[0].layout == Layout::Vit,
            plan@.groups[0].entries[4].source == Source::Whole(plan@.uniforms[0].buf),
            plan@.groups[0].entries[5].source == Source::Whole(plan@.uniforms[1].buf),
            plan@.uniforms[0].words == offsets.block(),
            plan@.uniforms[1].words == params.block(),
    {
        let n: u32 = params.n_tokens;
        let h: u32 = params.hidden_dim;
        assert(0 <= n * h) by (nonlinear_arith);
        let nh: u32 = n * h;
        let steps: Vec<Step> = vec![
            run_over_items(Kernel::VitLn1, n),
            run_over_items(Kernel::VitQkv, nh * 3),
            run_over_items(Kernel::VitAttn, n * params.n_heads),
            run_over_items(Kernel::VitAttnProj, nh),
            run_over_items(Kernel::VitLn2, n),
            run_over_items(Kernel::VitFfnUp, n * params.mlp_dim),
            run_over_items(Kernel::VitFfnDown, nh),
            Step::Submit,
        ];
        assert(steps@ =~= vit_block_steps(*params));
        vision_plan(offsets.words(), params.words(), vit_bind_group(), steps)
    }
}

impl VitPipeline {
    /// Plans the layer norm behind all ViT blocks, whose weights `ln1_w` and `ln1_b`
    /// point at.
    pub fn run_post_ln(&self, offsets: &VitBlockOffsets, params: &VitParams) -> (plan: Plan)
        requires
            dispatchable(params.n_tokens as int),
        ensures
            plan@ == vision_model(
                offsets.block(),
                params.block(),
                vit_group(),
                seq![over_items(Kernel::VitPostLn, params.n_tokens as int), Step::Submit],
            ),
            plan@.steps.len() == 2,
            plan@.steps[0] matches Step::Run { kernel, x, .. } && kernel == Kernel::VitPostLn && x
                * 256 >= params.n_tokens,
            plan@.uniforms.len() == 2 && plan@.groups.len() == 1,
            plan@.groups[0].layout == Layout::Vit,
            plan@.groups[0].entries[4].source == Source::Whole(plan@.uniforms[0].buf),
            plan@.groups[0].entries[5].source == Source::Whole(plan@.uniforms[1].buf),
            plan@.uniforms[0].words == offsets.block(),
            plan@.uniforms[1].words == params.block(),
    {
        proof {
            law_groups_cover_items(params.n_tokens as int, 256);
        }
        let steps: Vec<Step> = vec![
            run_over_items(Kernel::VitPostLn, params.n_tokens),
            Step::Submit,
        ];
        assert(steps@ =~= seq![over_items(Kernel::VitPostLn, params.n_tokens as int), Step::Submit]);
        vision_plan(offsets.words(), params.words(), vit_bind_group(), steps)
    }
}

/// The bind group of the resampler's kernels.
pub open spec fn resampler_group() -> GroupModel {
    GroupModel {
        layout: Layout::Resampler,
        entries: seq![
            whole(0, Buf::VisionBlob),
            whole(1, Buf::VisionFeatures),
            whole(2, Buf::QueryState),
            whole(3, Buf::KvState),
            whole(4, Buf::Uniforms(0)),
            whole(5, Buf::Uniforms(1)),
        ],
    }
}

fn resampler_bind_group() -> (g: BindGroup)
    ensures
        g@ == resampler_group(),
{
    let mut entries: Vec<Entry> = Vec::new();
    push_whole(&mut entries, 0, Buf::VisionBlob);
    push_whole(&mut entries, 1, Buf::VisionFeatures);
    push_whole(&mut entries, 2, Buf::QueryState);
    push_whole(&mut entries, 3, Buf::KvState);
    push_whole(&mut entries, 4, Buf::Uniforms(0));
    push_whole(&mut entries, 5, Buf::Uniforms(1));
    let g = BindGroup { layout: Layout::Resampler, entries };
    assert(g@ =~~= resampler_group());
    g
}

/// The kernels of the resampler, in order, with the threads of each.
pub open spec fn resampler_kernels(p: ResamplerParams) -> Seq<(Kernel, int)> {
    let queries = p.n_queries as int;
    let patches = p.n_vit as int;
    let d = p.d_model as int;
    seq![
        (Kernel::RspInitQ, queries * d),
        (Kernel::RspKvLin, patches * d),
        (Kernel::RspLnKv, patches),
        (Kernel::RspProjK, patches * d),
        (Kernel::RspProjV, patches * d),
        (Kernel::RspLnQ, queries),
        (Kernel::RspProjQ, queries * d),
        (Kernel::RspCopyQ, queries * d),
        (Kernel::RspAttn, queries * p.n_heads),
        (Kernel::RspOutProj, queries * d),
        (Kernel::RspPostLn, queries),
        (Kernel::RspFinalProj, queries * d),
    ]
}

/// The steps of the resampler: each kernel is submitted for itself, so that one
/// ends before the next begins.
pub open spec fn resampler_steps(p: ResamplerParams) -> Seq<Step> {
    let kernels = resampler_kernels(p);
    Seq::new(
        24,
        |i: int|
            if i % 2 == 0 {
                over_items(kernels[i / 2].0, kernels[i / 2].1)
            } else {
                Step::Submit
            },
    )
}

fn push_submitted(steps: &mut Vec<Step>, kernel: Kernel, items: u32)
    ensures
        final(steps)@ == old(steps)@.push(over_items(kernel, items as int)).push(Step::Submit),
{
    steps.push(run_over_items(kernel, items));
    steps.push(Step::Submit);
}

impl ResamplerPipeline {
    /// Plans the whole forward pass of the resampler. It leaves the visual tokens at
    /// the start of the key/value state.
    pub fn run_resampler(&self, offsets: &ResamplerOffsets, params: &ResamplerParams) -> (plan: Plan)
        requires
            dispatchable(params.n_queries as int),
            dispatchable(params.n_vit as int),
            dispatchable(params.n_queries * params.d_model),
            dispatchable(params.n_vit * params.d_model),
            dispatchable(params.n_queries * params.n_heads),
        ensures
            plan@ == vision_model(
                offsets.block(),
                params.block(),
                resampler_group(),
                resampler_steps(*params),
            ),
            plan@.uniforms.len() == 2 && plan@.groups.len() == 1,
            plan@.groups[0].layout == Layout::Resampler,
            plan@.groups[0].entries[4].source == Source::Whole(plan@.uniforms[0].buf),
            plan@.groups[0].entries[5].source == Source::Whole(plan@.uniforms[1].buf),
            plan@.uniforms[0].words == offsets.block(),
            plan@.uniforms[1].words == params.block(),
    {
        let queries: u32 = params.n_queries;
        let patches: u32 = params.n_vit;
        let query_items: u32 = queries * params.d_model;
        let patch_items: u32 = patches * params.d_model;
        let mut steps: Vec<Step> = Vec::new();
        push_submitted(&mut steps, Kernel::RspInitQ, query_items);
        push_submitted(&mut steps, Kernel::RspKvLin, patch_items);
        push_submitted(&mut steps, Kernel::RspLnKv, patches);
        push_submitted(&mut steps, Kernel::RspProjK, patch_items);
        push_submitted(&mut steps, Kernel::RspProjV, patch_items);
        push_submitted(&mut steps, Kernel::RspLnQ, queries);
        push_submitted(&mut steps, Kernel::RspProjQ, query_items);
        push_submitted(&mut steps, Kernel::RspCopyQ, query_items);
        push_submitted(&mut steps, Kernel::RspAttn, queries * params.n_heads);
        push_submitted(&mut steps, Kernel::RspOutProj, query_items);
        push_submitted(&mut steps, Kernel::RspPostLn, queries);
        push_submitted(&mut steps, Kernel::RspFinalProj, query_items);
        assert(steps@ =~= resampler_steps(*params));
        vision_plan(offsets.words(), params.words(), resampler_bind_group(), steps)
    }
}

} // verus!
